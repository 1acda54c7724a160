//! Structured logging of MCP tool calls at the bridge: UTF-8 safe
//! truncation, response summaries, and the log entry of a call.
//!
//! The JSON-RPC request and response are read by the daemon; this module
//! receives the fields it needs as plain values.

use vstd::prelude::*;
use crate::event::{utc_now, Timestamp};
use crate::text::{
    chars_of, decimal, is_longest_fitting_prefix, lemma_utf8_len_concat,
    lemma_utf8_len_take_monotone, longest_fitting_prefix, push_char, push_str_chars,
    string_from_chars, string_from_prefix, to_owned_string, u64_to_decimal, utf8_len,
};

verus! {

/// Default maximum length for truncated arguments/responses (in bytes).
pub const DEFAULT_MAX_TRUNCATE_LEN: usize = 1024;

/// Default channel capacity for non-blocking log delivery.
pub const DEFAULT_CHANNEL_CAPACITY: usize = 10_000;

/// The marker appended to truncated text.
pub open spec fn ellipsis() -> Seq<char> {
    seq!['.', '.', '.']
}

/// What `truncate_utf8_safe` returns, for a given longest fitting prefix `k`
/// of `s` within `max_len - 3` bytes (used only when truncation happens and
/// `max_len >= 4`).
pub open spec fn truncate_utf8_result(s: Seq<char>, max_len: int, r: Seq<char>) -> bool {
    if utf8_len(s) <= max_len {
        r == s
    } else if max_len < 4 {
        r == ellipsis()
    } else {
        exists|k: int| #[trigger]
            is_longest_fitting_prefix(s, k, max_len - 3) && r == s.take(k) + ellipsis()
    }
}

/// Truncate a string to at most `max_len` bytes, respecting UTF-8 boundaries.
///
/// If the string is longer than `max_len` bytes, it is cut after the longest
/// prefix of whole characters that fits in `max_len - 3` bytes and "..." is
/// appended; when `max_len < 4` the result is just "...".
pub fn truncate_utf8_safe(s: &str, max_len: usize) -> (r: String)
    ensures
        truncate_utf8_result(s@, max_len as int, r@),
        max_len >= 3 ==> utf8_len(r@) <= max_len,
{
    let v = chars_of(s);
    let (k, _bytes) = longest_fitting_prefix(&v, max_len);
    if k == v.len() {
        assert(v@.take(k as int) =~= v@);
        return string_from_chars(&v);
    }
    proof {
        lemma_utf8_len_take_monotone(v@, k + 1, v@.len() as int);
        assert(v@.take(v@.len() as int) =~= v@);
    }
    let mut r = if max_len < 4 {
        String::new()
    } else {
        let (k2, _b2) = longest_fitting_prefix(&v, max_len - 3);
        string_from_prefix(&v, k2)
    };
    let ghost before = r@;
    push_char(&mut r, '.');
    push_char(&mut r, '.');
    push_char(&mut r, '.');
    proof {
        assert(r@ =~= before + ellipsis());
        lemma_utf8_len_concat(before, ellipsis());
        assert(ellipsis().drop_last().drop_last().drop_last() =~= Seq::<char>::empty());
        assert(utf8_len(ellipsis()) == 3) by {
            reveal_with_fuel(utf8_len, 4);
        }
        if max_len < 4 {
            assert(before =~= Seq::<char>::empty());
        }
    }
    r
}

// ---------------------------------------------------------------------------
// Log entries
// ---------------------------------------------------------------------------

/// A structured log entry for an MCP tool call.
#[derive(Debug, Clone, PartialEq, Eq)]
pub struct McpToolCallLog {
    /// Unique request ID for correlating request and response logs.
    pub request_id: String,
    /// Name of the MCP server that handled the call.
    pub server_name: String,
    /// Name of the tool that was called.
    pub tool_name: String,
    /// Serialized arguments (truncated to max length).
    pub arguments: String,
    /// Summary of the response (truncated to max length).
    pub response_summary: String,
    /// Duration of the call in milliseconds.
    pub duration_ms: u64,
    /// When the call was made (UTC).
    pub timestamp: Timestamp,
    /// Whether the call succeeded.
    pub success: bool,
    /// Sandbox name this bridge serves.
    pub sandbox: String,
    /// JSON-RPC error code, if the call failed.
    pub error_code: Option<i64>,
    /// JSON-RPC error message, if the call failed.
    pub error_message: Option<String>,
    /// Original JSON-RPC request ID for protocol-level correlation.
    pub jsonrpc_id: Option<String>,
}

/// What a JSON-RPC response holds, as far as its log summary goes.
#[derive(Debug)]
pub enum ResponseShape {
    /// An `error` member, with its integer `code` and string `message` when
    /// present.
    Error { code: Option<i64>, message: Option<String> },
    /// A `result` member (and no `error`), serialized as JSON.
    Result { raw: String },
    /// Neither.
    Empty,
}

/// A signed 64-bit integer in decimal.
pub open spec fn i64_text(n: i64) -> Seq<char> {
    if n < 0 {
        "-"@ + decimal((-(n as int)) as nat)
    } else {
        decimal(n as nat)
    }
}

/// The summary of an error response before truncation.
pub open spec fn error_summary_text(code: Option<i64>, message: Option<String>) -> Seq<char> {
    "error: code="@ + match code {
        Some(c) => i64_text(c),
        None => "unknown"@,
    } + ", message="@ + match message {
        Some(m) => m@,
        None => "unknown"@,
    }
}

/// The text a response is summarized by, before truncation, and whether
/// it reports success.
pub open spec fn summary_of(r: ResponseShape) -> (Seq<char>, bool) {
    match r {
        ResponseShape::Error { code, message } => (error_summary_text(code, message), false),
        ResponseShape::Result { raw } => (raw@, true),
        ResponseShape::Empty => ("<empty response>"@, true),
    }
}

pub(crate) fn push_i64(s: &mut String, n: i64)
    ensures
        final(s)@ == old(s)@ + i64_text(n),
{
    if n < 0 {
        push_str_chars(s, "-");
        let m: u64 = if n == i64::MIN {
            9223372036854775808u64
        } else {
            (-n) as u64
        };
        push_str_chars(s, u64_to_decimal(m).as_str());
    } else {
        push_str_chars(s, u64_to_decimal(n as u64).as_str());
    }
}

/// Summarize a JSON-RPC response for the log: the summary (truncated to
/// `max_len` bytes), whether the call succeeded, and for an error its code
/// and message. A result is summarized by its JSON text; a response with
/// neither result nor error as `<empty response>`.
pub fn extract_response_summary(response: &ResponseShape, max_len: usize) -> (r: (
    String,
    bool,
    Option<i64>,
    Option<String>,
))
    ensures
        truncate_utf8_result(summary_of(*response).0, max_len as int, r.0@),
        r.1 == summary_of(*response).1,
        match response {
            ResponseShape::Error { code, message } => r.2 == *code && r.3 == *message,
            _ => r.2 is None && r.3 is None,
        },
{
    match response {
        ResponseShape::Error { code, message } => {
            let mut summary = to_owned_string("error: code=");
            match code {
                Some(c) => push_i64(&mut summary, *c),
                None => push_str_chars(&mut summary, "unknown"),
            }
            push_str_chars(&mut summary, ", message=");
            match message {
                Some(m) => push_str_chars(&mut summary, m.as_str()),
                None => push_str_chars(&mut summary, "unknown"),
            }
            let m = crate::text::clone_opt_string(message);
            (truncate_utf8_safe(summary.as_str(), max_len), false, *code, m)
        },
        ResponseShape::Result { raw } => (truncate_utf8_safe(raw.as_str(), max_len), true, None, None),
        ResponseShape::Empty => (truncate_utf8_safe("<empty response>", max_len), true, None, None),
    }
}

/// A lowercase hexadecimal digit.
pub open spec fn is_lower_hex_digit(c: char) -> bool {
    ('0' <= c && c <= '9') || ('a' <= c && c <= 'f')
}

/// The hyphenated text of a random (version 4, RFC 4122 variant) UUID:
/// 36 characters, hyphens after the 8th, 12th, 16th and 20th hex digit,
/// version digit `4`, variant digit one of `8`, `9`, `a`, `b`.
pub open spec fn is_v4_uuid_text(s: Seq<char>) -> bool {
    &&& s.len() == 36
    &&& forall|i: int|
        0 <= i < 36 ==> if i == 8 || i == 13 || i == 18 || i == 23 {
            #[trigger] s[i] == '-'
        } else {
            is_lower_hex_digit(s[i])
        }
    &&& s[14] == '4'
    &&& (s[19] == '8' || s[19] == '9' || s[19] == 'a' || s[19] == 'b')
}

/// `uuid::Uuid::new_v4` followed by `to_string`. The UUID is random; what
/// the crate's source fixes is its text form: `Display` writes the
/// hyphenated lowercase form, and `new_v4` sets the version nibble to 4
/// and the top variant bits to `10`. Which UUID comes out is not stated.
#[verifier::external_body]
fn new_request_id() -> (r: String)
    ensures
        is_v4_uuid_text(r@),
{
    uuid::Uuid::new_v4().to_string()
}

/// A fresh request ID for correlating a call's log entries: the text of a
/// random version 4 UUID.
pub fn generate_request_id() -> (r: String)
    ensures
        is_v4_uuid_text(r@),
{
    new_request_id()
}

/// The arguments of a `tools/call` request as log text: the JSON text of
/// its `params.arguments` (empty when the request has none), truncated to
/// `max_len` bytes.
pub fn extract_arguments(arguments: Option<&str>, max_len: usize) -> (r: String)
    ensures
        truncate_utf8_result(
            match arguments {
                Some(a) => a@,
                None => Seq::<char>::empty(),
            },
            max_len as int,
            r@,
        ),
{
    match arguments {
        Some(a) => truncate_utf8_safe(a, max_len),
        None => {
            proof {
                reveal_strlit("");
                assert(""@ =~= Seq::<char>::empty());
            }
            truncate_utf8_safe("", max_len)
        },
    }
}

/// Build the log entry of a tool call.
///
/// `tool_name` is the call's `params.name` (`unknown` when absent),
/// `arguments` the JSON text of its `params.arguments` (absent when the
/// request has none),
/// `request_id` the text of its JSON-RPC `id` (empty when absent, and then
/// not recorded). Arguments and the response summary are truncated to
/// `max_truncate_len` bytes. The entry gets a fresh request ID and the
/// current time.
pub fn build_tool_call_log(
    server_name: &str,
    sandbox: &str,
    tool_name: Option<&str>,
    arguments: Option<&str>,
    response: &ResponseShape,
    request_id: &str,
    duration_ms: u64,
    max_truncate_len: usize,
) -> (r: McpToolCallLog)
    ensures
        r.server_name@ == server_name@,
        r.sandbox@ == sandbox@,
        r.tool_name@ == match tool_name {
            Some(t) => t@,
            None => "unknown"@,
        },
        truncate_utf8_result(
            match arguments {
                Some(a) => a@,
                None => Seq::<char>::empty(),
            },
            max_truncate_len as int,
            r.arguments@,
        ),
        truncate_utf8_result(summary_of(*response).0, max_truncate_len as int, r.response_summary@),
        r.success == summary_of(*response).1,
        match response {
            ResponseShape::Error { code, message } => r.error_code == *code && r.error_message
                == *message,
            _ => r.error_code is None && r.error_message is None,
        },
        r.duration_ms == duration_ms,
        is_v4_uuid_text(r.request_id@),
        r.jsonrpc_id matches Some(id) ==> id@ == request_id@ && request_id@.len() > 0,
        r.jsonrpc_id is None ==> request_id@.len() == 0,
{
    let tool = match tool_name {
        Some(t) => to_owned_string(t),
        None => to_owned_string("unknown"),
    };
    let args = extract_arguments(arguments, max_truncate_len);
    let (response_summary, success, error_code, error_message) = extract_response_summary(
        response,
        max_truncate_len,
    );
    let id_chars = chars_of(request_id);
    let jsonrpc_id = if id_chars.len() == 0 {
        None
    } else {
        Some(to_owned_string(request_id))
    };
    McpToolCallLog {
        request_id: generate_request_id(),
        server_name: to_owned_string(server_name),
        tool_name: tool,
        arguments: args,
        response_summary,
        duration_ms,
        timestamp: utc_now(),
        success,
        sandbox: to_owned_string(sandbox),
        error_code,
        error_message,
        jsonrpc_id,
    }
}

/// Count of log entries dropped because the log channel was full.
#[derive(Debug)]
pub struct DroppedLogs {
    count: u64,
}

impl DroppedLogs {
    /// The count, as a number.
    pub closed spec fn value(&self) -> nat {
        self.count as nat
    }

    /// A counter at zero.
    pub fn new() -> (r: Self)
        ensures
            r.value() == 0,
    {
        DroppedLogs { count: 0 }
    }

    /// The number of entries dropped so far.
    pub fn dropped_count(&self) -> (r: u64)
        ensures
            r == self.value(),
    {
        self.count
    }

    /// Record a dropped entry; returns whether to warn (the first drop and
    /// every hundredth after it). The count saturates at `u64::MAX`.
    pub fn record_drop(&mut self) -> (warn: bool)
        ensures
            warn == (old(self).value() % 100 == 0),
            final(self).value() == if old(self).value() < u64::MAX {
                old(self).value() + 1
            } else {
                old(self).value()
            },
    {
        let prev = self.count;
        if self.count < u64::MAX {
            self.count = self.count + 1;
        }
        prev % 100 == 0
    }
}

} // verus!

//! JSON-RPC messages as the bridge reads and answers them: the fields of a
//! request, the shape of a response, the line written to the server's
//! stdin, and the error replies the bridge gives itself.
use vstd::prelude::*;
use serde_json::Value;
use crate::bridge::check_jsonrpc_fields;
use crate::bridge_error::BridgeError;
use crate::logging::ResponseShape;
use crate::text::{push_str_chars, str_eq, to_owned_string};
use crate::jsonrpc::JsonRpcId::{Json, Text};

verus! {

// ---------------------------------------------------------------------------
// Requests
// ---------------------------------------------------------------------------

/// A request's JSON-RPC `id`.
#[derive(Debug)]
pub enum JsonRpcId {
    /// A string id, by its contents.
    Text(String),
    /// Any other id (a number, `null`, …), by its compact JSON text.
    Json(String),
}

/// The members of a JSON-RPC request that the bridge reads.
#[derive(Debug)]
pub struct JsonRpcFields {
    /// `jsonrpc`, if it is a string.
    pub jsonrpc: Option<String>,
    /// `method`, if it is a string.
    pub method: Option<String>,
    /// `id`, if present.
    pub id: Option<JsonRpcId>,
    /// `params.name`, if it is a string.
    pub tool_name: Option<String>,
    /// The compact JSON text of `params.arguments`, if present.
    pub arguments: Option<String>,
}

/// A request id by plain values: whether it is a string, and its text.
pub open spec fn id_parts(id: Option<JsonRpcId>) -> Option<(bool, Seq<char>)> {
    match id {
        Some(JsonRpcId::Text(s)) => Some((true, s@)),
        Some(JsonRpcId::Json(t)) => Some((false, t@)),
        None => None,
    }
}

/// An optional string by its view.
pub open spec fn opt_text(o: Option<String>) -> Option<Seq<char>> {
    match o {
        Some(s) => Some(s@),
        None => None,
    }
}

/// The fields of a request by plain values, in the order of
/// `jsonrpc_request_of`.
pub open spec fn fields_parts(f: JsonRpcFields) -> (
    Option<Seq<char>>,
    Option<Seq<char>>,
    Option<(bool, Seq<char>)>,
    Option<Seq<char>>,
    Option<Seq<char>>,
) {
    (opt_text(f.jsonrpc), opt_text(f.method), id_parts(f.id), opt_text(f.tool_name), opt_text(f.arguments))
}

/// What `serde_json::from_slice` makes of a request body, read as plain
/// values: `None` when the body is not JSON; otherwise its `jsonrpc`,
/// `method`, `id`, `params.name` and `params.arguments` (as
/// `fields_parts` orders them), and its compact re-serialization
/// (`serde_json::to_vec`).
pub uninterp spec fn jsonrpc_request_of(body: Seq<u8>) -> Option<
    (
        Option<Seq<char>>,
        Option<Seq<char>>,
        Option<(bool, Seq<char>)>,
        Option<Seq<char>>,
        Option<Seq<char>>,
        Seq<u8>,
    ),
>;

/// Parses `body` with `serde_json::from_slice` into a `serde_json::Value`
/// and reads its members: `jsonrpc`, `method` and `params.name` when they
/// are strings, `id` (a string by its contents, anything else by its
/// compact JSON text), `params.arguments` by its compact JSON text; also
/// returns the value re-serialized with `serde_json::to_vec`. The outcome
/// is named `jsonrpc_request_of` of the body; the text of a parse error is
/// not stated.
#[verifier::external_body]
fn read_jsonrpc_request(body: &[u8]) -> (r: Result<(JsonRpcFields, Vec<u8>), String>)
    ensures
        match r {
            Ok((f, bytes)) => jsonrpc_request_of(body@) == Some(
                (
                    fields_parts(f).0,
                    fields_parts(f).1,
                    fields_parts(f).2,
                    fields_parts(f).3,
                    fields_parts(f).4,
                    bytes@,
                ),
            ),
            Err(_) => jsonrpc_request_of(body@) is None,
        },
{
    let v: Value = serde_json::from_slice(body).map_err(|e| e.to_string())?;
    let text = |x: Option<&Value>| x.and_then(Value::as_str).map(String::from);
    let p = v.get("params").unwrap_or(&Value::Null);
    let f = JsonRpcFields { jsonrpc: text(v.get("jsonrpc")), method: text(v.get("method")),
        id: v.get("id").map(|i| match i {
            Value::String(s) => Text(s.clone()),
            other => Json(other.to_string()),
        }),
        tool_name: text(p.get("name")), arguments: p.get("arguments").map(Value::to_string) };
    Ok((f, serde_json::to_vec(&v).unwrap_or_default()))
}

/// The detail of the error for a request whose `jsonrpc` and `method`
/// members are not as JSON-RPC 2.0 wants them, if they are not.
pub open spec fn fields_error(jsonrpc: Option<Seq<char>>, method: Option<Seq<char>>) -> Option<
    Seq<char>,
> {
    if jsonrpc != Some("2.0"@) {
        Some("missing or invalid 'jsonrpc' field (expected \"2.0\")"@)
    } else if method is None {
        Some("missing 'method' field in JSON-RPC request"@)
    } else {
        None
    }
}

/// Parse an HTTP request body as a JSON-RPC 2.0 request: its fields and
/// the compact message to forward. A body that is not JSON gives
/// `InvalidJsonRpc` with "invalid JSON in request body: " and the parser's
/// message; `jsonrpc` must be the string "2.0" and `method` a string.
pub fn parse_jsonrpc_request(body: &[u8]) -> (r: Result<(JsonRpcFields, Vec<u8>), BridgeError>)
    ensures
        match jsonrpc_request_of(body@) {
            None => r matches Err(BridgeError::InvalidJsonRpc { detail })
                && "invalid JSON in request body: "@.is_prefix_of(detail@),
            Some(parts) => match fields_error(parts.0, parts.1) {
                Some(d) => r matches Err(BridgeError::InvalidJsonRpc { detail }) && detail@ == d,
                None => r matches Ok((f, bytes)) && fields_parts(f) == (
                    parts.0,
                    parts.1,
                    parts.2,
                    parts.3,
                    parts.4,
                ) && bytes@ == parts.5,
            },
        },
{
    match read_jsonrpc_request(body) {
        Err(msg) => {
            let mut detail = to_owned_string("invalid JSON in request body: ");
            let ghost head = detail@;
            push_str_chars(&mut detail, msg.as_str());
            assert(detail@.subrange(0, head.len() as int) =~= head);
            Err(BridgeError::InvalidJsonRpc { detail })
        },
        Ok((f, bytes)) => {
            let version: Option<&str> = match &f.jsonrpc {
                Some(v) => Some(v.as_str()),
                None => None,
            };
            let method: Option<&str> = match &f.method {
                Some(m) => Some(m.as_str()),
                None => None,
            };
            match check_jsonrpc_fields(version, method) {
                Err(e) => {
                    return Err(e);
                },
                Ok(()) => {},
            }
            Ok((f, bytes))
        },
    }
}

/// A JSON-RPC message as one newline-terminated line for the server's
/// stdin.
pub fn format_jsonrpc_for_stdin(message: &Vec<u8>) -> (r: Vec<u8>)
    ensures
        r@ == message@.push(10u8),
{
    let mut r = message.clone();
    r.push(10u8);
    r
}

/// The tool a `tools/call` request calls (`params.name`), if it is one.
pub fn tool_call_name(f: &JsonRpcFields) -> (r: Option<String>)
    ensures
        opt_text(r) == if opt_text(f.method) == Some("tools/call"@) {
            opt_text(f.tool_name)
        } else {
            None::<Seq<char>>
        },
{
    let is_call = match &f.method {
        Some(m) => str_eq(m.as_str(), "tools/call"),
        None => false,
    };
    if !is_call {
        return None;
    }
    match &f.tool_name {
        Some(t) => Some(t.clone()),
        None => None,
    }
}

/// The text of a request id for log correlation: a string id's contents,
/// another id's JSON text, empty when there is none.
pub fn request_id_text(id: &Option<JsonRpcId>) -> (r: String)
    ensures
        r@ == match id_parts(*id) {
            Some((_, t)) => t,
            None => Seq::<char>::empty(),
        },
{
    match id {
        Some(JsonRpcId::Text(s)) => s.clone(),
        Some(JsonRpcId::Json(t)) => t.clone(),
        None => String::new(),
    }
}

// ---------------------------------------------------------------------------
// Responses
// ---------------------------------------------------------------------------

/// What `serde_json::from_str` makes of a server's response line, read as
/// plain values: `None` when the line is not JSON; otherwise the `error`
/// member's integer `code` and string `message` if it has an `error`
/// member, else the compact JSON text of its `result` member if any, and
/// the compact re-serialization of the whole message.
pub uninterp spec fn jsonrpc_response_of(line: Seq<char>) -> Option<
    (Option<(Option<i64>, Option<Seq<char>>)>, Option<Seq<char>>, Seq<u8>),
>;

/// A response shape by plain values, in the order of `jsonrpc_response_of`.
pub open spec fn shape_parts(s: ResponseShape) -> (
    Option<(Option<i64>, Option<Seq<char>>)>,
    Option<Seq<char>>,
) {
    match s {
        ResponseShape::Error { code, message } => (Some((code, opt_text(message))), None),
        ResponseShape::Result { raw } => (None, Some(raw@)),
        ResponseShape::Empty => (None, None),
    }
}

/// Parses `line` with `serde_json::from_str` into a `serde_json::Value`
/// and reads its `error` member (integer `code`, string `message`) or, when
/// it has none, its `result` member's compact JSON text; also returns the
/// value re-serialized with `serde_json::to_vec`. The outcome is named
/// `jsonrpc_response_of` of the line; the text of a parse error is not
/// stated.
#[verifier::external_body]
fn read_jsonrpc_response(line: &str) -> (r: Result<(ResponseShape, Vec<u8>), String>)
    ensures
        match r {
            Ok((s, bytes)) => jsonrpc_response_of(line@) == Some(
                (shape_parts(s).0, shape_parts(s).1, bytes@),
            ),
            Err(_) => jsonrpc_response_of(line@) is None,
        },
{
    let v: Value = serde_json::from_str(line).map_err(|e| e.to_string())?;
    let shape = match v.get("error") {
        Some(e) => ResponseShape::Error {
            code: e.get("code").and_then(Value::as_i64),
            message: e.get("message").and_then(Value::as_str).map(String::from),
        },
        None => match v.get("result") {
            Some(x) => ResponseShape::Result { raw: x.to_string() },
            None => ResponseShape::Empty,
        },
    };
    Ok((shape, serde_json::to_vec(&v).unwrap_or_default()))
}

/// Parse a response line from the MCP server: its shape for the log and
/// the compact message to answer with. A line that is not JSON gives
/// `InvalidJsonRpc` with "MCP server returned invalid JSON: " and the
/// parser's message.
pub fn parse_jsonrpc_response(line: &str) -> (r: Result<(ResponseShape, Vec<u8>), BridgeError>)
    ensures
        match jsonrpc_response_of(line@) {
            None => r matches Err(BridgeError::InvalidJsonRpc { detail })
                && "MCP server returned invalid JSON: "@.is_prefix_of(detail@),
            Some(parts) => r matches Ok((s, bytes)) && shape_parts(s) == (parts.0, parts.1)
                && bytes@ == parts.2,
        },
{
    match read_jsonrpc_response(line) {
        Err(msg) => {
            let mut detail = to_owned_string("MCP server returned invalid JSON: ");
            let ghost head = detail@;
            push_str_chars(&mut detail, msg.as_str());
            assert(detail@.subrange(0, head.len() as int) =~= head);
            Err(BridgeError::InvalidJsonRpc { detail })
        },
        Ok((s, bytes)) => Ok((s, bytes)),
    }
}

// ---------------------------------------------------------------------------
// Error replies
// ---------------------------------------------------------------------------

/// The JSON-RPC error the bridge answers with itself: `code`, `message`,
/// and `data` holding `tool` (when present) and `reason`.
#[derive(Debug)]
pub struct JsonRpcErrorReply {
    pub code: i64,
    pub message: String,
    pub tool: Option<String>,
    pub reason: String,
}

/// The error code of a tool call denied by policy.
pub const DENIED_TOOL_CODE: i64 = -32001;

/// The JSON-RPC "Invalid Request" error code.
pub const INVALID_REQUEST_CODE: i64 = -32600;

/// The reply to a tool call denied by policy.
pub fn denied_tool_reply(tool_name: &str, reason: &str) -> (r: JsonRpcErrorReply)
    ensures
        r.code == DENIED_TOOL_CODE,
        r.message@ == "Tool call denied by policy"@,
        opt_text(r.tool) == Some(tool_name@),
        r.reason@ == reason@,
{
    JsonRpcErrorReply {
        code: DENIED_TOOL_CODE,
        message: to_owned_string("Tool call denied by policy"),
        tool: Some(to_owned_string(tool_name)),
        reason: to_owned_string(reason),
    }
}

/// The reply to a `tools/call` request without `params.name`.
pub fn missing_tool_name_reply() -> (r: JsonRpcErrorReply)
    ensures
        r.code == INVALID_REQUEST_CODE,
        r.message@ == "Invalid Request"@,
        r.tool is None,
        r.reason@ == "tools/call request missing 'params.name' field"@,
{
    JsonRpcErrorReply {
        code: INVALID_REQUEST_CODE,
        message: to_owned_string("Invalid Request"),
        tool: None,
        reason: to_owned_string("tools/call request missing 'params.name' field"),
    }
}

} // verus!

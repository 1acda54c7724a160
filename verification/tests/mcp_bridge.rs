use darkshell::bridge::{
    backoff_duration, check_http_request, check_jsonrpc_fields, command_line,
    empty_command_check, error_reply, existing_registration_check, request_log_kind,
    running_registration, start_time_matches, BridgeConfig, RequestLogKind, RestartState,
    RestartStep, MAX_RESTART_ATTEMPTS, PORT_RANGE_END, PORT_RANGE_START,
};
use darkshell::bridge_error::BridgeError;
use darkshell::jsonrpc::{
    denied_tool_reply, format_jsonrpc_for_stdin, missing_tool_name_reply, parse_jsonrpc_request,
    parse_jsonrpc_response, request_id_text, tool_call_name, JsonRpcId,
};
use darkshell::logging::ResponseShape;
use darkshell::registry::BridgeStatus;
use darkshell::delay::Delay;
use std::time::Duration;

#[test]
fn backoff_duration_follows_exponential_pattern() {
    assert_eq!(backoff_duration(0), Some(Delay::from_secs(1)));
    assert_eq!(backoff_duration(1), Some(Delay::from_secs(2)));
    assert_eq!(backoff_duration(2), Some(Delay::from_secs(4)));
}

#[test]
fn backoff_duration_returns_none_after_max_attempts() {
    assert_eq!(backoff_duration(3), None);
    assert_eq!(backoff_duration(10), None);
}

#[test]
fn backoff_sequence_sums_to_7_seconds() {
    let total: Duration = (0..MAX_RESTART_ATTEMPTS)
        .filter_map(backoff_duration)
        .map(|d| Duration::new(d.as_secs(), d.subsec_nanos()))
        .sum();
    assert_eq!(total, Duration::from_secs(7));
}

fn config() -> BridgeConfig {
    BridgeConfig::new(
        "dev".to_string(),
        "perplexity".to_string(),
        vec!["npx".to_string(), "-y".to_string(), "pplx".to_string()],
        "/home/u/.config".to_string(),
    )
}

#[test]
fn bridge_config_defaults() {
    let c = config();
    assert_eq!(c.port_start, PORT_RANGE_START);
    assert_eq!(c.port_end, PORT_RANGE_END);
    assert_eq!((c.port_start, c.port_end), (9100, 9199));
    assert!(c.credentials.is_empty());
    assert_eq!(c.config_dir, "/home/u/.config");
}

#[test]
fn restart_retries_three_times_then_gives_up() {
    let mut st = RestartState::after_crash("exit 1");
    let mut delays = Vec::new();
    loop {
        match st.next_step() {
            RestartStep::Retry { attempt, delay } => {
                assert_eq!(attempt as usize, delays.len());
                delays.push(delay);
                st.attempt_failed(&BridgeError::StartupFailed {
                    command: "x".to_string(),
                    reason: format!("boom {attempt}"),
                });
            }
            RestartStep::GiveUp(e) => {
                match &e {
                    BridgeError::MaxRetriesExhausted { attempts, last_exit } => {
                        assert_eq!(*attempts, 3);
                        assert!(last_exit.contains("boom 2"));
                    }
                    other => panic!("unexpected: {other:?}"),
                }
                break;
            }
        }
    }
    assert_eq!(delays, vec![Delay::from_secs(1), Delay::from_secs(2), Delay::from_secs(4)]);
}

#[test]
fn existing_registration_decisions() {
    let c = config();
    let reg = running_registration(&c, 77, 9105, 1_700_000_000);
    assert_eq!(reg.status, BridgeStatus::Running);
    assert_eq!(reg.forwarded_port, 9105);
    assert_eq!(reg.command, c.command);
    assert!(matches!(existing_registration_check(None, true, &c), Ok(false)));
    assert!(matches!(existing_registration_check(Some(&reg), false, &c), Ok(true)));
    match existing_registration_check(Some(&reg), true, &c) {
        Err(e @ BridgeError::AlreadyRunning { .. }) => assert_eq!(
            e.to_display_string(),
            "bridge already running for sandbox 'dev' server 'perplexity' (PID 77). Stop it first with: darkshell mcp remove dev perplexity"
        ),
        other => panic!("unexpected: {other:?}"),
    }
    assert!(start_time_matches(100, 102));
    assert!(start_time_matches(102, 100));
    assert!(!start_time_matches(100, 103));
}

#[test]
fn commands_and_jsonrpc_fields() {
    assert_eq!(command_line(&vec!["a".to_string(), "b c".to_string()]), "a b c");
    assert_eq!(command_line(&vec![]), "");
    match empty_command_check(&vec![]) {
        Err(BridgeError::StartupFailed { command, reason }) => {
            assert_eq!(command, "");
            assert_eq!(reason, "command is empty");
        }
        other => panic!("unexpected: {other:?}"),
    }
    assert!(empty_command_check(&vec!["x".to_string()]).is_ok());
    assert!(check_jsonrpc_fields(Some("2.0"), Some("initialize")).is_ok());
    match check_jsonrpc_fields(Some("1.0"), Some("initialize")) {
        Err(BridgeError::InvalidJsonRpc { detail }) => {
            assert_eq!(detail, "missing or invalid 'jsonrpc' field (expected \"2.0\")")
        }
        other => panic!("unexpected: {other:?}"),
    }
    match check_jsonrpc_fields(Some("2.0"), None) {
        Err(BridgeError::InvalidJsonRpc { detail }) => {
            assert_eq!(detail, "missing 'method' field in JSON-RPC request")
        }
        other => panic!("unexpected: {other:?}"),
    }
    assert_eq!(request_log_kind(Some("tools/call")), RequestLogKind::ToolCall);
    assert_eq!(request_log_kind(Some("tools/list")), RequestLogKind::ToolsList);
    assert_eq!(request_log_kind(Some("initialize")), RequestLogKind::Unlogged);
    assert_eq!(request_log_kind(None), RequestLogKind::Unlogged);
}

#[test]
fn http_requests_are_checked_before_reading() {
    let r = check_http_request(false, None, Some(10)).expect("refused");
    assert_eq!(r.status, 405);
    assert_eq!(r.error, "method not allowed");
    let r = check_http_request(true, Some("2000000"), Some(10)).expect("refused");
    assert_eq!(r.status, 413);
    assert_eq!(r.detail, "Content-Length 2000000 exceeds maximum of 1048576 bytes");
    let r = check_http_request(true, Some("abc"), None).expect("refused");
    assert_eq!(r.status, 413);
    assert_eq!(r.detail, format!("body size hint {} exceeds maximum of 1048576 bytes", u64::MAX));
    assert!(check_http_request(true, Some("1048576"), Some(1048576)).is_none());
    assert!(check_http_request(true, None, Some(0)).is_none());
}

#[test]
fn bridge_errors_map_to_http_replies() {
    let r = error_reply(&BridgeError::InvalidJsonRpc { detail: "bad".to_string() });
    assert_eq!((r.status, r.error.as_str(), r.detail.as_str()), (502, "MCP server returned invalid JSON-RPC", "bad"));
    let r = error_reply(&BridgeError::SubprocessIo { reason: "gone".to_string() });
    assert_eq!((r.status, r.error.as_str(), r.detail.as_str()), (503, "MCP server unavailable", "gone"));
    let r = error_reply(&BridgeError::PortInUse { port: 9100 });
    assert_eq!((r.status, r.error.as_str(), r.detail.as_str()), (500, "internal bridge error", "port 9100 is already in use"));
}

#[test]
fn bridge_error_messages() {
    assert_eq!(
        BridgeError::NoAvailablePort { start: 9100, end: 9199 }.to_display_string(),
        "no available ports in range 9100-9199 for MCP bridge. Free a port with: lsof -i :<port> -sTCP:LISTEN | kill <PID>"
    );
    assert_eq!(
        BridgeError::InitializeTimeout { timeout_secs: 60 }.to_display_string(),
        "MCP server did not respond to initialize within 60s. Check that the command produces JSON-RPC output on stdout"
    );
    assert_eq!(
        BridgeError::ToolDenied { tool: "t".into(), server: "s".into(), reason: "r".into() }.to_display_string(),
        "tool 't' denied by policy for server 's': r. Update the policy with: darkshell policy set --mcp-tools"
    );
}

#[test]
fn parse_jsonrpc_request_valid() {
    let body = br#"{"jsonrpc":"2.0","method":"tools/list","id":1}"#;
    let (fields, message) = parse_jsonrpc_request(body).expect("should parse");
    assert_eq!(fields.method.as_deref(), Some("tools/list"));
    assert!(matches!(fields.id, Some(JsonRpcId::Json(ref t)) if t == "1"));
    let result: serde_json::Value = serde_json::from_slice(&message).unwrap();
    assert_eq!(result["method"], "tools/list");
    assert_eq!(result["id"], 1);
}

#[test]
fn parse_jsonrpc_request_missing_version() {
    let body = br#"{"method":"tools/list","id":1}"#;
    let err = parse_jsonrpc_request(body).unwrap_err();
    assert!(matches!(err, BridgeError::InvalidJsonRpc { .. }));
    assert!(err.to_display_string().contains("jsonrpc"));
}

#[test]
fn parse_jsonrpc_request_missing_method() {
    let body = br#"{"jsonrpc":"2.0","id":1}"#;
    let err = parse_jsonrpc_request(body).unwrap_err();
    assert!(matches!(err, BridgeError::InvalidJsonRpc { .. }));
    assert!(err.to_display_string().contains("method"));
}

#[test]
fn parse_jsonrpc_request_invalid_json() {
    let err = parse_jsonrpc_request(b"not json at all").unwrap_err();
    assert!(matches!(err, BridgeError::InvalidJsonRpc { .. }));
}

#[test]
fn parse_jsonrpc_request_invalid_json_says_so() {
    let err = parse_jsonrpc_request(b"{\"jsonrpc\":").unwrap_err();
    match err {
        BridgeError::InvalidJsonRpc { detail } => {
            assert!(detail.starts_with("invalid JSON in request body: "), "{detail}");
            assert!(detail.len() > "invalid JSON in request body: ".len());
        }
        other => panic!("unexpected: {other:?}"),
    }
}

#[test]
fn parse_jsonrpc_request_reads_the_fields_the_bridge_uses() {
    let body = br#"{"jsonrpc":"2.0","method":"tools/call","id":"req-abc","params":{"name":"read_file","arguments":{"path": "/tmp/x"}}}"#;
    let (fields, _) = parse_jsonrpc_request(body).unwrap();
    assert_eq!(fields.jsonrpc.as_deref(), Some("2.0"));
    assert_eq!(fields.tool_name.as_deref(), Some("read_file"));
    assert_eq!(fields.arguments.as_deref(), Some(r#"{"path":"/tmp/x"}"#));
    assert!(matches!(fields.id, Some(JsonRpcId::Text(ref t)) if t == "req-abc"));
    assert_eq!(request_id_text(&fields.id), "req-abc");
    assert_eq!(tool_call_name(&fields).as_deref(), Some("read_file"));
    let (list, _) = parse_jsonrpc_request(br#"{"jsonrpc":"2.0","method":"tools/list","params":{"name":"x"},"id":7}"#).unwrap();
    assert_eq!(tool_call_name(&list), None);
    assert_eq!(request_id_text(&list.id), "7");
    let (no_id, _) = parse_jsonrpc_request(br#"{"jsonrpc":"2.0","method":"initialize"}"#).unwrap();
    assert_eq!(request_id_text(&no_id.id), "");
}

#[test]
fn parse_jsonrpc_request_not_an_object_lacks_the_version() {
    let err = parse_jsonrpc_request(b"[1, 2]").unwrap_err();
    assert_eq!(
        err.to_display_string(),
        "MCP server returned invalid JSON-RPC: missing or invalid 'jsonrpc' field (expected \"2.0\")"
    );
}

#[test]
fn parse_jsonrpc_response_valid() {
    let line = r#"{"jsonrpc":"2.0","result":{"tools":[]},"id":1}"#;
    let (shape, bytes) = parse_jsonrpc_response(line).expect("should parse");
    let result: serde_json::Value = serde_json::from_slice(&bytes).unwrap();
    assert_eq!(result["id"], 1);
    assert!(result["result"]["tools"].is_array());
    assert!(matches!(shape, ResponseShape::Result { ref raw } if raw == r#"{"tools":[]}"#));
}

#[test]
fn parse_jsonrpc_response_malformed() {
    let line = "this is not json";
    let err = parse_jsonrpc_response(line).unwrap_err();
    assert!(matches!(err, BridgeError::InvalidJsonRpc { .. }));
}

#[test]
fn parse_jsonrpc_response_error_and_empty_shapes() {
    let (shape, _) =
        parse_jsonrpc_response(r#"{"jsonrpc":"2.0","error":{"code":-32601,"message":"Method not found"},"id":1}"#).unwrap();
    assert!(matches!(shape, ResponseShape::Error { code: Some(-32601), message: Some(ref m) } if m == "Method not found"));
    let (empty, _) = parse_jsonrpc_response(r#"{"jsonrpc":"2.0","id":1}"#).unwrap();
    assert!(matches!(empty, ResponseShape::Empty));
    match parse_jsonrpc_response("{oops").unwrap_err() {
        BridgeError::InvalidJsonRpc { detail } => assert!(detail.starts_with("MCP server returned invalid JSON: ")),
        other => panic!("unexpected: {other:?}"),
    }
}

#[test]
fn format_jsonrpc_for_stdin_appends_newline() {
    let (_, message) = parse_jsonrpc_request(br#"{"jsonrpc":"2.0","method":"test","id":1}"#).unwrap();
    let bytes = format_jsonrpc_for_stdin(&message);
    assert!(bytes.ends_with(b"\n"));
    let json_part = &bytes[..bytes.len() - 1];
    let _: serde_json::Value = serde_json::from_slice(json_part).expect("should be valid JSON");
}

#[test]
fn bridge_error_replies_carry_code_message_and_data() {
    let denied = denied_tool_reply("delete_file", "tool 'delete_file' matches deny pattern 'delete_*'");
    assert_eq!(denied.code, -32001);
    assert!(denied.message.contains("denied"));
    assert_eq!(denied.tool.as_deref(), Some("delete_file"));
    let missing = missing_tool_name_reply();
    assert_eq!(missing.code, -32600);
    assert_eq!(missing.message, "Invalid Request");
    assert_eq!(missing.tool, None);
    assert_eq!(missing.reason, "tools/call request missing 'params.name' field");
}

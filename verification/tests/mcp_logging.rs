use darkshell::jsonrpc::{
    parse_jsonrpc_request, parse_jsonrpc_response, request_id_text, tool_call_name,
};
use darkshell::logging::{
    build_tool_call_log, extract_arguments, generate_request_id, extract_response_summary, truncate_utf8_safe,
    McpToolCallLog, ResponseShape,
};

#[test]
fn truncate_utf8_safe_no_truncation_needed() {
    let s = "hello world";
    assert_eq!(truncate_utf8_safe(s, 100), "hello world");
}

#[test]
fn truncate_utf8_safe_truncates_long_string() {
    let s = "a".repeat(2000);
    let result = truncate_utf8_safe(&s, 1024);
    assert!(result.len() <= 1024);
    assert!(result.ends_with("..."));
}

#[test]
fn truncate_utf8_safe_handles_multibyte_chars() {
    let s = "\u{1F600}\u{1F601}\u{1F602}\u{1F603}\u{1F604}";
    let result = truncate_utf8_safe(s, 10);
    assert!(result.len() <= 13);
    assert!(result.ends_with("..."));
    for _ in result.chars() {}
}

#[test]
fn truncate_utf8_safe_handles_empty_string() {
    assert_eq!(truncate_utf8_safe("", 100), "");
    assert_eq!(truncate_utf8_safe("", 0), "");
}

#[test]
fn truncate_utf8_safe_handles_zero_max_len() {
    assert_eq!(truncate_utf8_safe("hello", 0), "...");
}

#[test]
fn truncate_utf8_safe_handles_very_small_max_len() {
    assert_eq!(truncate_utf8_safe("hello world", 1), "...");
    assert_eq!(truncate_utf8_safe("hello world", 2), "...");
    assert_eq!(truncate_utf8_safe("hello world", 3), "...");
}

#[test]
fn truncate_utf8_safe_handles_exact_boundary() {
    let s = "abcdefghij";
    assert_eq!(truncate_utf8_safe(s, 10), "abcdefghij");
    let result = truncate_utf8_safe(s, 9);
    assert_eq!(result, "abcdef...");
}

#[test]
fn truncate_utf8_safe_handles_mixed_multibyte() {
    let s = "a\u{00E9}\u{1F600}";
    assert_eq!(s.len(), 7);
    let result = truncate_utf8_safe(s, 6);
    assert!(result.ends_with("..."));
    for _ in result.chars() {}
}

#[test]
fn truncation_keeps_whole_characters_within_the_limit() {
    // "a" + "é" = 3 bytes fit in 6 - 3; the emoji does not.
    assert_eq!(truncate_utf8_safe("a\u{00E9}\u{1F600}", 6), "a\u{00E9}...");
    // Limit 4 leaves one byte for content.
    assert_eq!(truncate_utf8_safe("\u{00E9}\u{00E9}\u{00E9}", 4), "...");
    for max in 3..20 {
        assert!(truncate_utf8_safe("\u{1F600}x\u{00E9}yz\u{1F601}", max).len() <= max);
    }
}

/// What a JSON-RPC response line holds, as the library reads it.
fn shape(line: &str) -> ResponseShape {
    parse_jsonrpc_response(line).expect("a JSON response").0
}

#[test]
fn extract_response_summary_success() {
    let resp = r#"{"jsonrpc":"2.0","result":{"tools":["a","b"]},"id":1}"#;
    let (summary, success, code, msg) = extract_response_summary(&shape(resp), 1024);
    assert!(success);
    assert!(code.is_none());
    assert!(msg.is_none());
    assert!(summary.contains("tools"));
}

#[test]
fn extract_response_summary_error() {
    let resp = r#"{"jsonrpc":"2.0","error":{"code":-32600,"message":"Invalid Request"},"id":1}"#;
    let (summary, success, code, msg) = extract_response_summary(&shape(resp), 1024);
    assert!(!success);
    assert_eq!(code, Some(-32600));
    assert_eq!(msg.as_deref(), Some("Invalid Request"));
    assert!(summary.contains("-32600"));
}

#[test]
fn extract_response_summary_empty() {
    let resp = r#"{"jsonrpc":"2.0","id":1}"#;
    let (summary, success, _, _) = extract_response_summary(&shape(resp), 1024);
    assert!(success);
    assert_eq!(summary, "<empty response>");
}

#[test]
fn error_summary_spells_out_code_and_message() {
    let (summary, _, _, _) = extract_response_summary(
        &ResponseShape::Error { code: Some(i64::MIN), message: None },
        1024,
    );
    assert_eq!(summary, format!("error: code={}, message=unknown", i64::MIN));
    let (short, _, _, _) =
        extract_response_summary(&ResponseShape::Result { raw: "é".repeat(10) }, 5);
    assert_eq!(short, "é...");
}

fn json(text: &str) -> String {
    text.to_string()
}

/// Read a request and its response as the bridge does, and build the entry.
fn log_of(
    server: &str,
    sandbox: &str,
    request: &str,
    response: &str,
    duration_ms: u64,
    max_len: usize,
) -> McpToolCallLog {
    let (fields, _) = parse_jsonrpc_request(request.as_bytes()).expect("a JSON-RPC request");
    let tool = tool_call_name(&fields);
    build_tool_call_log(
        server,
        sandbox,
        tool.as_deref(),
        fields.arguments.as_deref(),
        &shape(response),
        &request_id_text(&fields.id),
        duration_ms,
        max_len,
    )
}

#[test]
fn test_bridge_logs_tool_call_with_server_name_and_tool_name() {
    let request = json(
        r#"{"jsonrpc":"2.0","method":"tools/call","params":{"name":"read_file","arguments":{"path":"/tmp/test.txt"}},"id":1}"#,
    );
    let response = json(r#"{"jsonrpc":"2.0","result":{"content":"hello"},"id":1}"#);
    let log = log_of("perplexity", "dev-sandbox", &request, &response, 42, 1024);
    assert_eq!(log.server_name, "perplexity");
    assert_eq!(log.tool_name, "read_file");
    assert!(!log.request_id.is_empty());
    assert_eq!(log.jsonrpc_id.as_deref(), Some("1"));
}

#[test]
fn test_bridge_log_includes_arguments_and_timestamp() {
    let request = json(
        r#"{"jsonrpc":"2.0","method":"tools/call","params":{"name":"search","arguments":{"query":"rust async"}},"id":2}"#,
    );
    let response = json(r#"{"jsonrpc":"2.0","result":{"results":[]},"id":2}"#);
    let log = log_of("tavily", "test-sb", &request, &response, 100, 1024);
    assert!(log.arguments.contains("rust async"));
    let now = chrono::Utc::now().timestamp();
    let diff = now - log.timestamp.secs;
    assert!(diff.abs() < 2, "timestamp should be recent, got diff={diff}");
}

#[test]
fn test_bridge_logs_response_with_duration_and_summary() {
    let request =
        json(r#"{"jsonrpc":"2.0","method":"tools/call","params":{"name":"fetch","arguments":{}},"id":3}"#);
    let response = json(r#"{"jsonrpc":"2.0","result":{"data":"some result data"},"id":3}"#);
    let log = log_of("mcp-server", "sb", &request, &response, 250, 1024);
    assert_eq!(log.duration_ms, 250);
    assert!(log.response_summary.contains("some result data"));
    assert!(log.success);
}

#[test]
fn test_bridge_truncates_response_summary_at_configured_limit() {
    let request = json(
        r#"{"jsonrpc":"2.0","method":"tools/call","params":{"name":"big_tool","arguments":{}},"id":4}"#,
    );
    let large_result = "x".repeat(5000);
    let response = json(&format!(r#"{{"jsonrpc":"2.0","result":"{large_result}","id":4}}"#));
    let log = log_of("server", "sb", &request, &response, 10, 512);
    assert!(
        log.response_summary.len() <= 515,
        "response_summary should be truncated, got len={}",
        log.response_summary.len()
    );
    assert!(log.response_summary.ends_with("..."));
}

#[test]
fn test_bridge_logs_error_responses_with_code_and_message() {
    let request = json(
        r#"{"jsonrpc":"2.0","method":"tools/call","params":{"name":"fail_tool","arguments":{}},"id":7}"#,
    );
    let response = json(
        r#"{"jsonrpc":"2.0","error":{"code":-32601,"message":"Method not found"},"id":7}"#,
    );
    let log = log_of("server", "sb", &request, &response, 5, 1024);
    assert!(!log.success);
    assert_eq!(log.error_code, Some(-32601));
    assert_eq!(log.error_message.as_deref(), Some("Method not found"));
    assert!(log.response_summary.contains("-32601"));
    assert!(log.response_summary.contains("Method not found"));
}

#[test]
fn extract_arguments_truncates_large_payload() {
    let large_args = format!(r#"{{"data":"{}"}}"#, "x".repeat(5000));
    let req = json(&format!(
        r#"{{"jsonrpc":"2.0","method":"tools/call","params":{{"name":"tool","arguments":{large_args}}},"id":1}}"#
    ));
    let (fields, _) = parse_jsonrpc_request(req.as_bytes()).unwrap();
    let args = extract_arguments(fields.arguments.as_deref(), 512);
    assert!(args.len() <= 515);
}

#[test]
fn extract_arguments_of_a_request_without_arguments_is_empty() {
    assert_eq!(extract_arguments(None, 512), "");
    assert_eq!(extract_arguments(Some("{}"), 512), "{}");
    assert_eq!(extract_arguments(Some("{\"k\":\"vvvvvv\"}"), 8), "{\"k\":...");
}

#[test]
fn log_entry_without_id_or_tool_name_records_neither() {
    let request = json(r#"{"jsonrpc":"2.0","method":"tools/call","params":{}}"#);
    let response = json(r#"{"jsonrpc":"2.0"}"#);
    let log = log_of("server", "sb", &request, &response, 1, 1024);
    assert_eq!(log.tool_name, "unknown");
    assert_eq!(log.arguments, "");
    assert_eq!(log.jsonrpc_id, None);
    assert_eq!(log.response_summary, "<empty response>");
    assert!(log.success);
}

#[test]
fn generate_request_id_is_unique() {
    let id1 = generate_request_id();
    let id2 = generate_request_id();
    assert_ne!(id1, id2);
    assert!(!id1.is_empty());
}

#[test]
fn request_ids_are_hyphenated_version_4_uuids() {
    let id = generate_request_id();
    let chars: Vec<char> = id.chars().collect();
    assert_eq!(chars.len(), 36);
    for (i, c) in chars.iter().enumerate() {
        if [8, 13, 18, 23].contains(&i) {
            assert_eq!(*c, '-');
        } else {
            assert!(c.is_ascii_hexdigit() && !c.is_ascii_uppercase(), "{id}");
        }
    }
    assert_eq!(chars[14], '4');
    assert!("89ab".contains(chars[19]));
}

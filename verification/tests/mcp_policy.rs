use darkshell::bridge::{request_disposition, RequestDisposition};
use darkshell::policy::{
    decide_tool_access, evaluate_tool_access, matches_tool_pattern, McpPolicyFile, McpToolPolicy,
    PolicyDecision,
};

fn policy(allowed: &[&str], denied: &[&str]) -> McpToolPolicy {
    McpToolPolicy {
        allowed_tools: allowed.iter().map(|s| s.to_string()).collect(),
        denied_tools: denied.iter().map(|s| s.to_string()).collect(),
    }
}

#[test]
fn test_bridge_allows_all_tools_when_no_policy_configured() {
    let policy = McpToolPolicy::default();
    assert!(evaluate_tool_access(&policy, "read_file").is_allowed());
    assert!(evaluate_tool_access(&policy, "write_file").is_allowed());
    assert!(evaluate_tool_access(&policy, "delete_file").is_allowed());
    assert!(evaluate_tool_access(&policy, "any_tool").is_allowed());
}

#[test]
fn test_bridge_denies_unlisted_tool_when_allowed_tools_configured() {
    let policy = policy(&["read_file", "search"], &[]);
    let decision = evaluate_tool_access(&policy, "delete_file");
    assert!(decision.is_denied());
    if let PolicyDecision::Deny { reason } = &decision {
        assert!(reason.contains("delete_file"));
        assert!(reason.contains("not in allowed_tools"));
    }
}

#[test]
fn test_bridge_allows_only_allowlisted_tools() {
    let policy = policy(&["read_file", "search"], &[]);
    assert!(evaluate_tool_access(&policy, "read_file").is_allowed());
    assert!(evaluate_tool_access(&policy, "search").is_allowed());
    assert!(evaluate_tool_access(&policy, "write_file").is_denied());
}

#[test]
fn test_bridge_rejects_tool_not_in_allowlist_with_reason() {
    let policy = policy(&["read_file"], &[]);
    let decision = evaluate_tool_access(&policy, "write_file");
    match decision {
        PolicyDecision::Deny { reason } => {
            assert!(reason.contains("write_file"), "reason should contain tool name: {reason}");
            assert!(reason.contains("not in allowed_tools"), "reason should explain why: {reason}");
        }
        PolicyDecision::Allow => panic!("expected Deny"),
    }
}

#[test]
fn test_bridge_blocks_denylisted_tools() {
    let policy = policy(&[], &["delete_file", "write_file"]);
    assert!(evaluate_tool_access(&policy, "delete_file").is_denied());
    assert!(evaluate_tool_access(&policy, "write_file").is_denied());
}

#[test]
fn test_bridge_allows_tools_not_in_denylist() {
    let policy = policy(&[], &["delete_file"]);
    assert!(evaluate_tool_access(&policy, "read_file").is_allowed());
    assert!(evaluate_tool_access(&policy, "search").is_allowed());
    assert!(evaluate_tool_access(&policy, "list_files").is_allowed());
}

#[test]
fn test_denied_tools_take_precedence_over_allowed_tools() {
    let policy = policy(&["read_*"], &["read_secret"]);
    assert!(evaluate_tool_access(&policy, "read_file").is_allowed());
    assert!(evaluate_tool_access(&policy, "read_secret").is_denied());
}

#[test]
fn test_empty_allowed_tools_denies_all() {
    let policy = policy(&[], &[]);
    assert!(evaluate_tool_access(&policy, "anything").is_allowed());
}

#[test]
fn test_empty_denied_tools_allows_all() {
    let policy = policy(&[], &[]);
    assert!(evaluate_tool_access(&policy, "anything").is_allowed());
}

#[test]
fn test_glob_wildcard_matching() {
    let policy = policy(&["read_*"], &[]);
    assert!(evaluate_tool_access(&policy, "read_file").is_allowed());
    assert!(evaluate_tool_access(&policy, "read_directory").is_allowed());
    assert!(evaluate_tool_access(&policy, "write_file").is_denied());
}

#[test]
fn test_glob_question_mark_matching() {
    let policy = policy(&["tool_?"], &[]);
    assert!(evaluate_tool_access(&policy, "tool_a").is_allowed());
    assert!(evaluate_tool_access(&policy, "tool_1").is_allowed());
    assert!(evaluate_tool_access(&policy, "tool_ab").is_denied());
}

#[test]
fn test_glob_bracket_matching() {
    let policy = policy(&["tool_[abc]"], &[]);
    assert!(evaluate_tool_access(&policy, "tool_a").is_allowed());
    assert!(evaluate_tool_access(&policy, "tool_b").is_allowed());
    assert!(evaluate_tool_access(&policy, "tool_d").is_denied());
}

#[test]
fn test_deny_glob_pattern() {
    let policy = policy(&[], &["delete_*"]);
    assert!(evaluate_tool_access(&policy, "delete_file").is_denied());
    assert!(evaluate_tool_access(&policy, "delete_directory").is_denied());
    assert!(evaluate_tool_access(&policy, "read_file").is_allowed());
}

#[test]
fn test_invalid_glob_falls_back_to_exact_match() {
    let policy = policy(&["[invalid"], &[]);
    assert!(evaluate_tool_access(&policy, "[invalid").is_allowed());
    assert!(evaluate_tool_access(&policy, "anything_else").is_denied());
}

#[test]
fn test_tool_name_with_special_characters() {
    let policy = policy(&["tool-with-dashes"], &[]);
    assert!(evaluate_tool_access(&policy, "tool-with-dashes").is_allowed());
    assert!(evaluate_tool_access(&policy, "tool_with_underscores").is_denied());
}

#[test]
fn test_tool_name_unicode() {
    let policy = policy(&["\u{1f680}_launch"], &[]);
    assert!(evaluate_tool_access(&policy, "\u{1f680}_launch").is_allowed());
    assert!(evaluate_tool_access(&policy, "launch").is_denied());
}

#[test]
fn test_decision_display() {
    let allow = PolicyDecision::Allow;
    assert_eq!(allow.to_display_string(), "allow");
    let deny = PolicyDecision::Deny { reason: "not in allowlist".to_string() };
    assert!(deny.to_display_string().contains("not in allowlist"));
}

#[test]
fn test_evaluate_per_request_independence() {
    let policy = policy(&["read_file"], &[]);
    let d1 = evaluate_tool_access(&policy, "read_file");
    let d2 = evaluate_tool_access(&policy, "write_file");
    let d3 = evaluate_tool_access(&policy, "read_file");
    assert!(d1.is_allowed());
    assert!(d2.is_denied());
    assert!(d3.is_allowed());
}

#[test]
fn deny_reasons_are_exact() {
    let p = policy(&["read_*"], &["x", "delete_*", "delete_file"]);
    assert_eq!(
        evaluate_tool_access(&p, "delete_file"),
        PolicyDecision::Deny { reason: "tool 'delete_file' matches deny pattern 'delete_*'".to_string() }
    );
    assert_eq!(
        evaluate_tool_access(&p, "write"),
        PolicyDecision::Deny { reason: "tool 'write' not in allowed_tools list".to_string() }
    );
    assert_eq!(PolicyDecision::Deny { reason: "r".to_string() }.to_display_string(), "deny: r");
}

#[test]
fn decide_tool_access_from_given_matches() {
    let p = policy(&["a", "b"], &["c", "d"]);
    // The second deny pattern matches.
    assert_eq!(
        decide_tool_access(&p, "t", &vec![false, true], &vec![true, true]),
        PolicyDecision::Deny { reason: "tool 't' matches deny pattern 'd'".to_string() }
    );
    // No deny match, an allow match.
    assert_eq!(decide_tool_access(&p, "t", &vec![false, false], &vec![false, true]), PolicyDecision::Allow);
    // No match at all under an allow list.
    assert_eq!(
        decide_tool_access(&p, "t", &vec![false, false], &vec![false, false]),
        PolicyDecision::Deny { reason: "tool 't' not in allowed_tools list".to_string() }
    );
    let open = policy(&[], &["c"]);
    assert_eq!(decide_tool_access(&open, "t", &vec![false], &vec![]), PolicyDecision::Allow);
}

#[test]
fn glob_patterns_compile_or_compare_exactly() {
    assert!(matches_tool_pattern("read_*", "read_x"));
    assert!(!matches_tool_pattern("read_*", "write_x"));
    assert!(matches_tool_pattern("[oops", "[oops"));
    assert!(!matches_tool_pattern("[oops", "oops"));
}

#[test]
fn policy_file_insert_then_get() {
    let mut file = McpPolicyFile::default();
    assert!(file.mcp_servers.is_empty());
    file.mcp_servers.insert("perplexity".to_string(), policy(&["search"], &[]));
    file.mcp_servers.insert("filesystem".to_string(), policy(&[], &["delete_*"]));
    assert_eq!(file.mcp_servers.len(), 2);
    assert!(file.mcp_servers.contains_key("perplexity"));
    assert_eq!(file.mcp_servers.get("perplexity").unwrap().allowed_tools, vec!["search"]);
    // A second write replaces the first.
    file.mcp_servers.insert("perplexity".to_string(), policy(&["read"], &[]));
    assert_eq!(file.mcp_servers.len(), 2);
    assert_eq!(file.mcp_servers.get("perplexity").unwrap().allowed_tools, vec!["read"]);
    assert!(file.mcp_servers.get("other").is_none());
}

#[test]
fn requests_are_forwarded_denied_or_refused() {
    let p = policy(&["read_file"], &[]);
    assert!(matches!(
        request_disposition(Some("tools/call"), Some("read_file"), Some(&p)),
        RequestDisposition::Forward
    ));
    match request_disposition(Some("tools/call"), Some("rm"), Some(&p)) {
        RequestDisposition::Deny { tool, reason } => {
            assert_eq!(tool, "rm");
            assert_eq!(reason, "tool 'rm' not in allowed_tools list");
        }
        other => panic!("unexpected: {other:?}"),
    }
    assert!(matches!(
        request_disposition(Some("tools/call"), None, Some(&p)),
        RequestDisposition::MissingToolName
    ));
    assert!(matches!(
        request_disposition(Some("tools/list"), None, Some(&p)),
        RequestDisposition::Forward
    ));
    assert!(matches!(
        request_disposition(Some("tools/call"), Some("rm"), None),
        RequestDisposition::Forward
    ));
}

use darkshell::event::EventPayload;
use darkshell::parser::parse_log_line;

#[test]
fn parse_policy_decision_line() {
    let event = parse_log_line("sb", "policy: network_access api.com:443 -> allow [rule: default-allow]", 0)
        .expect("should parse");
    assert_eq!(event.event_type(), "policy");
    if let EventPayload::PolicyDecision(p) = event.payload() {
        assert_eq!(p.action, "network_access");
        assert_eq!(p.endpoint.as_deref(), Some("api.com:443"));
        assert_eq!(p.result, "allow");
        assert_eq!(p.rule_matched.as_deref(), Some("default-allow"));
    } else {
        panic!("expected PolicyDecision");
    }
}

#[test]
fn parse_network_request_line() {
    let event = parse_log_line("sb", "network: GET example.com:443 allowed", 0).expect("should parse");
    assert_eq!(event.event_type(), "network");
    if let EventPayload::NetworkRequest(n) = event.payload() {
        assert_eq!(n.host, "example.com");
        assert_eq!(n.port, 443);
        assert_eq!(n.method.as_deref(), Some("GET"));
        assert_eq!(n.policy_result, "allowed");
    } else {
        panic!("expected NetworkRequest");
    }
}

#[test]
fn parse_command_executed_line() {
    let event = parse_log_line("sb", "exec: cargo build [exit=0] [1234ms]", 0).expect("should parse");
    assert_eq!(event.event_type(), "command");
    if let EventPayload::CommandExecuted(c) = event.payload() {
        assert_eq!(c.command, "cargo build");
        assert_eq!(c.exit_code, Some(0));
        assert_eq!(c.duration_ms, Some(1234));
    } else {
        panic!("expected CommandExecuted");
    }
}

#[test]
fn parse_command_without_exit_or_duration() {
    let event = parse_log_line("sb", "exec: git status", 0).expect("should parse");
    if let EventPayload::CommandExecuted(c) = event.payload() {
        assert_eq!(c.command, "git status");
        assert_eq!(c.exit_code, None);
        assert_eq!(c.duration_ms, None);
    } else {
        panic!("expected CommandExecuted");
    }
}

#[test]
fn parse_file_changed_line() {
    let event = parse_log_line("sb", "file: modify /sandbox/src/main.rs by cargo", 0).expect("should parse");
    assert_eq!(event.event_type(), "file");
    if let EventPayload::FileChanged(f) = event.payload() {
        assert_eq!(f.operation, "modify");
        assert_eq!(f.path, "/sandbox/src/main.rs");
        assert_eq!(f.process.as_deref(), Some("cargo"));
    } else {
        panic!("expected FileChanged");
    }
}

#[test]
fn parse_file_changed_without_process() {
    let event = parse_log_line("sb", "file: create /tmp/output.txt", 0).expect("should parse");
    if let EventPayload::FileChanged(f) = event.payload() {
        assert_eq!(f.process, None);
    } else {
        panic!("expected FileChanged");
    }
}

#[test]
fn parse_lifecycle_line() {
    let event = parse_log_line("sb", "lifecycle: ready from provisioning", 0).expect("should parse");
    assert_eq!(event.event_type(), "lifecycle");
    if let EventPayload::SandboxStateChange(lc) = event.payload() {
        assert_eq!(lc.phase, "ready");
        assert_eq!(lc.previous_phase.as_deref(), Some("provisioning"));
    } else {
        panic!("expected SandboxStateChange");
    }
}

#[test]
fn parse_lifecycle_without_previous() {
    let event = parse_log_line("sb", "lifecycle: provisioning", 0).expect("should parse");
    if let EventPayload::SandboxStateChange(lc) = event.payload() {
        assert_eq!(lc.phase, "provisioning");
        assert_eq!(lc.previous_phase, None);
    } else {
        panic!("expected SandboxStateChange");
    }
}

#[test]
fn parse_empty_line_returns_none() {
    assert!(parse_log_line("sb", "", 0).is_none());
    assert!(parse_log_line("sb", "   ", 0).is_none());
}

#[test]
fn parse_unrecognized_line_returns_none() {
    assert!(parse_log_line("sb", "some random log output", 0).is_none());
}

#[test]
fn parse_line_with_replacement_char_returns_parse_error() {
    let line = "exec: \u{FFFD}bad bytes\u{FFFD}";
    let event = parse_log_line("sb", line, 42).expect("should return meta event");
    assert_eq!(event.event_type(), "watch");
    if let EventPayload::WatchMeta(m) = event.payload() {
        assert_eq!(m.parse_error_offset, Some(42));
        assert!(m.message.contains("non-UTF-8"));
        assert_eq!(m.message, "skipped log line with non-UTF-8 bytes at offset 42");
    } else {
        panic!("expected WatchMeta");
    }
}

#[test]
fn parse_policy_without_rule() {
    let event = parse_log_line("sb", "policy: file_access /etc/passwd -> deny", 0).expect("should parse");
    if let EventPayload::PolicyDecision(p) = event.payload() {
        assert_eq!(p.result, "deny");
        assert_eq!(p.rule_matched, None);
    } else {
        panic!("expected PolicyDecision");
    }
}

#[test]
fn parse_edge_cases() {
    // A negative exit code, and an exit marker without its closing bracket.
    let event = parse_log_line("sb", "  exec: make [exit=-2] [ 7 ms]  ", 0).expect("should parse");
    if let EventPayload::CommandExecuted(c) = event.payload() {
        assert_eq!(c.command, "make");
        assert_eq!(c.exit_code, Some(-2));
        assert_eq!(c.duration_ms, Some(7));
    } else {
        panic!("expected CommandExecuted");
    }
    // Malformed lines of a known kind are parse-error events.
    assert_eq!(malformed_offset("exec: make [exit=1", 0).0, Some(0));
    // Too few words, a bad port, and IPv6-style hosts split at the last colon.
    assert_eq!(malformed_offset("network: GET host:80", 9).0, Some(9));
    assert_eq!(malformed_offset("network: GET host:99999 ok", 10).0, Some(10));
    let event = parse_log_line("sb", "network: CONNECT ::1:8080 denied by policy", 0).expect("parse");
    if let EventPayload::NetworkRequest(n) = event.payload() {
        assert_eq!(n.host, "::1");
        assert_eq!(n.port, 8080);
        assert_eq!(n.policy_result, "denied by policy");
    } else {
        panic!("expected NetworkRequest");
    }
    // A policy line without an endpoint.
    let event = parse_log_line("sb", "policy: exec -> deny", 0).expect("parse");
    if let EventPayload::PolicyDecision(p) = event.payload() {
        assert_eq!(p.action, "exec");
        assert_eq!(p.endpoint, None);
    } else {
        panic!("expected PolicyDecision");
    }
    assert_eq!(malformed_offset("file: touch", 11).1, "skipped malformed file log line at offset 11");
    assert_eq!(malformed_offset("lifecycle:   ", 12).0, Some(12));
}

fn malformed_offset(line: &str, offset: u64) -> (Option<u64>, String) {
    let event = parse_log_line("sb", line, offset).expect("malformed event lines are reported");
    assert_eq!(event.event_type(), "watch");
    match event.payload() {
        EventPayload::WatchMeta(m) => {
            assert_eq!(m.overflow_count, None);
            (m.parse_error_offset, m.message.clone())
        }
        _ => panic!("expected WatchMeta"),
    }
}

#[test]
fn malformed_network_line_is_a_parse_error_event() {
    let (offset, message) = malformed_offset("network: GET example.com", 7);
    assert_eq!(offset, Some(7));
    assert_eq!(message, "skipped malformed network log line at offset 7");
}

#[test]
fn malformed_lines_of_each_kind_are_parse_error_events() {
    assert_eq!(malformed_offset("policy: allow everything", 1).0, Some(1));
    assert_eq!(malformed_offset("network: GET host:notaport allowed", 2).0, Some(2));
    assert_eq!(malformed_offset("exec:   ", 3).1, "skipped malformed exec log line at offset 3");
    assert_eq!(malformed_offset("  file: onlyoneword  ", 4).0, Some(4));
    assert_eq!(malformed_offset("lifecycle:", 5).1, "skipped malformed lifecycle log line at offset 5");
}

#[test]
fn lines_without_an_event_prefix_are_still_ignored() {
    assert!(parse_log_line("sb", "networking: GET example.com", 0).is_none());
    assert!(parse_log_line("sb", "info: network: GET a:1 ok", 0).is_none());
}

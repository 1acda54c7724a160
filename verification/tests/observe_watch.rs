use darkshell::event::{
    clock_string, CommandEvent, EventPayload, LifecycleEvent, McpToolCallEvent, NetworkEvent,
    PolicyEvent, Timestamp, WatchEvent, WatchMetaEvent,
};
use darkshell::filter::EventFilter;
use darkshell::observe_error::ObserveError;
use darkshell::watch::{
    check_ebpf_availability, initial_backoff, next_backoff, overflow_notice,
    sandbox_deleted_event, sandbox_not_found_error, WatchConfig, DEFAULT_CHANNEL_CAPACITY,
};
use darkshell::delay::Delay;

#[test]
fn backoff_doubles_up_to_max() {
    let b1 = initial_backoff();
    assert_eq!(b1, Delay::from_secs(1));
    let b2 = next_backoff(b1);
    assert_eq!(b2, Delay::from_secs(2));
    let b3 = next_backoff(b2);
    assert_eq!(b3, Delay::from_secs(4));
    let b4 = next_backoff(b3);
    assert_eq!(b4, Delay::from_secs(8));
    let b5 = next_backoff(b4);
    assert_eq!(b5, Delay::from_secs(16));
    let b6 = next_backoff(b5);
    assert_eq!(b6, Delay::from_secs(30));
    let b7 = next_backoff(b6);
    assert_eq!(b7, Delay::from_secs(30));
}

#[test]
fn check_ebpf_returns_degradation_message() {
    assert!(check_ebpf_availability(true).is_some(), "v1 should always report eBPF unavailable");
    assert!(check_ebpf_availability(false).is_some(), "v1 should always report eBPF unavailable");
}

#[test]
fn sandbox_deleted_event_has_correct_shape() {
    let event = sandbox_deleted_event("doomed", Some("ready"));
    assert_eq!(event.event_type(), "lifecycle");
    assert_eq!(event.sandbox(), "doomed");
    if let EventPayload::SandboxStateChange(lc) = event.payload() {
        assert_eq!(lc.phase, "deleted");
        assert_eq!(lc.previous_phase.as_deref(), Some("ready"));
    } else {
        panic!("expected SandboxStateChange");
    }
}

#[test]
fn sandbox_deleted_event_accepts_none_previous_phase() {
    let event = sandbox_deleted_event("doomed", None);
    if let EventPayload::SandboxStateChange(lc) = event.payload() {
        assert_eq!(lc.phase, "deleted");
        assert_eq!(lc.previous_phase, None);
    } else {
        panic!("expected SandboxStateChange");
    }
}

#[test]
fn sandbox_not_found_error_includes_available_list() {
    let err = sandbox_not_found_error("missing", &vec!["sb-1".to_owned(), "sb-2".to_owned()]);
    let msg = err.to_display_string();
    assert!(msg.contains("missing"));
    assert!(msg.contains("sb-1, sb-2"));
}

#[test]
fn sandbox_not_found_error_with_empty_list() {
    let err = sandbox_not_found_error("missing", &vec![]);
    let msg = err.to_display_string();
    assert!(msg.contains("(none)"));
    assert_eq!(msg, "sandbox 'missing' not found. Available sandboxes: (none)");
}

#[test]
fn watch_config_builder_with_tty_sets_field() {
    let config = WatchConfig::new("sb").with_tty(true);
    assert!(config.is_tty);
    assert_eq!(config.sandbox, "sb");
    assert!(!config.json);
    assert_eq!(config.channel_capacity, DEFAULT_CHANNEL_CAPACITY);
}

#[test]
fn watch_config_builder_with_json_sets_field() {
    let config = WatchConfig::new("sb").with_json(true);
    assert!(config.json);
    assert_eq!(config.sandbox, "sb");
    assert!(!config.is_tty);
    assert_eq!(config.channel_capacity, DEFAULT_CHANNEL_CAPACITY);
}

#[test]
fn watch_config_with_filter_keeps_the_rest() {
    let config = WatchConfig::new("sb").with_json(true).with_filter(EventFilter::parse("mcp").unwrap());
    assert!(config.json);
    assert_eq!(config.filter.active_types(), &vec!["mcp".to_string()]);
}

#[test]
fn overflow_notice_every_hundredth_drop() {
    let m = overflow_notice(1).expect("first drop is reported");
    assert_eq!(m.overflow_count, Some(1));
    assert_eq!(m.message, "1 events dropped due to buffer overflow");
    assert!(overflow_notice(2).is_none());
    assert!(overflow_notice(100).is_none());
    assert_eq!(overflow_notice(101).unwrap().message, "101 events dropped due to buffer overflow");
}

fn at(secs: i64, nanos: u32, payload: EventPayload) -> WatchEvent {
    WatchEvent::at(Timestamp { secs, nanos }, "sb", payload)
}

#[test]
fn human_readable_format_contains_event_type_and_detail() {
    let event = WatchEvent::new(
        "sb",
        EventPayload::CommandExecuted(CommandEvent {
            command: "git status".to_owned(),
            exit_code: Some(0),
            duration_ms: Some(100),
        }),
    );
    let output = event.to_human_readable(false);
    assert!(output.contains("command"), "should contain event type");
    assert!(output.contains("git status"), "should contain command");
    assert!(output.contains("exit=0"), "should contain exit code");
    assert!(output.contains("100ms"), "should contain duration");
}

#[test]
fn human_readable_with_color_contains_ansi_codes() {
    let event = WatchEvent::new(
        "sb",
        EventPayload::NetworkRequest(NetworkEvent {
            host: "example.com".to_owned(),
            port: 443,
            method: Some("GET".to_owned()),
            policy_result: "allowed".to_owned(),
        }),
    );
    let output = event.to_human_readable(true);
    assert!(output.contains("\x1b["), "should contain ANSI codes");
}

#[test]
fn human_readable_without_color_has_no_ansi_codes() {
    let event = WatchEvent::new(
        "sb",
        EventPayload::PolicyDecision(PolicyEvent {
            action: "network_access".to_owned(),
            binary: None,
            endpoint: Some("api.com:443".to_owned()),
            result: "allow".to_owned(),
            rule_matched: None,
        }),
    );
    let output = event.to_human_readable(false);
    assert!(!output.contains("\x1b["), "should not contain ANSI codes");
}

#[test]
fn lifecycle_deleted_event_for_clean_exit() {
    let event = WatchEvent::new(
        "doomed-sandbox",
        EventPayload::SandboxStateChange(LifecycleEvent {
            phase: "deleted".to_owned(),
            previous_phase: Some("ready".to_owned()),
        }),
    );
    assert_eq!(event.event_type(), "lifecycle");
    if let EventPayload::SandboxStateChange(lc) = event.payload() {
        assert_eq!(lc.phase, "deleted");
    } else {
        panic!("expected SandboxStateChange payload");
    }
}

#[test]
fn human_readable_exact_lines() {
    // 2023-11-14T22:13:20.123456789Z
    let e = at(
        1_700_000_000,
        123_456_789,
        EventPayload::CommandExecuted(CommandEvent { command: "ls".into(), exit_code: Some(-2), duration_ms: None }),
    );
    assert_eq!(e.to_human_readable(false), "22:13:20.123 command    ls [exit=-2]");
    assert_eq!(
        e.to_human_readable(true),
        "\x1b[2m22:13:20.123\x1b[0m \x1b[36mcommand   \x1b[0m ls [exit=-2]"
    );
    let e = at(
        59,
        7_000_000,
        EventPayload::McpToolCall(McpToolCallEvent { tool_name: "t".into(), server: "s".into(), duration_ms: None, success: Some(false) }),
    );
    assert_eq!(e.to_human_readable(false), "00:00:59.007 mcp        t via s [failed]");
    let e = at(
        -1,
        0,
        EventPayload::SandboxStateChange(LifecycleEvent { phase: "ready".into(), previous_phase: None }),
    );
    assert_eq!(e.to_human_readable(false), "23:59:59.000 lifecycle  none -> ready");
    let e = at(
        0,
        0,
        EventPayload::WatchMeta(WatchMetaEvent { overflow_count: None, parse_error_offset: None, message: "m".into() }),
    );
    assert_eq!(e.to_human_readable(true), "\x1b[2m00:00:00.000\x1b[0m \x1b[37mwatch     \x1b[0m m");
}

#[test]
fn clock_matches_utc_time_of_day() {
    assert_eq!(clock_string(Timestamp { secs: 3_600 * 5 + 61, nanos: 999_999_999 }), "05:01:01.999");
    // A leap second reads as second 60.
    assert_eq!(clock_string(Timestamp { secs: 86_399, nanos: 1_500_000_000 }), "23:59:60.500");
}

#[test]
fn observe_error_messages() {
    let e = ObserveError::ParseError { offset: 42, reason: "bad".into() };
    assert_eq!(e.to_display_string(), "failed to parse log line at byte offset 42: bad");
    let e = ObserveError::ConnectionLost { reason: "eof".into() };
    assert_eq!(e.to_display_string(), "connection to event source lost: eof. Reconnecting...");
}

#[test]
fn backoff_from_the_longest_span_and_around_the_cap() {
    assert_eq!(Delay::from_secs(3).saturating_mul(5), Delay::from_secs(15));
    assert!(Delay::from_secs(3).is_longer_than(&Delay::from_secs(2)));
    assert!(!Delay::from_secs(2).is_longer_than(&Delay::from_secs(2)));
    let long = Delay::from_secs(u64::MAX);
    let doubled = long.saturating_mul(2);
    assert_eq!(doubled.as_secs(), u64::MAX);
    assert_eq!(doubled.subsec_nanos(), 999_999_999);
    assert_eq!(next_backoff(long), Delay::from_secs(30));
    assert_eq!(next_backoff(Delay::from_secs(15)), Delay::from_secs(30));
    assert_eq!(next_backoff(Delay::from_secs(14)), Delay::from_secs(28));
}

use darkshell::bridge::{PORT_RANGE_END, PORT_RANGE_START};
use darkshell::mcp_cli::{
    already_registered_message, cleanup_summary, cli_registration, list_lines, looks_like_bridge,
    no_free_port_message, not_found_message, port_candidates,
};
use darkshell::registry::{BridgeRegistration, BridgeStatus, Transport};

fn registration(sandbox: &str, server: &str, port: u16) -> BridgeRegistration {
    BridgeRegistration {
        sandbox: sandbox.to_string(),
        server_name: server.to_string(),
        transport: Transport::StdioHttp,
        command: vec!["npx".to_string(), format!("@test/{server}")],
        bridge_pid: 1234,
        forwarded_port: port,
        status: BridgeStatus::Running,
        process_start_time: None,
    }
}

#[test]
fn trivial_mcp_test_discovery_check() {
    assert!(true);
}

#[test]
fn port_candidates_cover_whole_range_when_nothing_is_used() {
    let ports = port_candidates(&vec![]);
    assert_eq!(ports.len(), (PORT_RANGE_END - PORT_RANGE_START + 1) as usize);
    assert_eq!(ports[0], PORT_RANGE_START);
    assert_eq!(*ports.last().unwrap(), PORT_RANGE_END);
}

#[test]
fn port_candidates_skip_registered_ports() {
    let ports = port_candidates(&vec![PORT_RANGE_START, 9102, 5000]);
    assert_eq!(ports[0], PORT_RANGE_START + 1);
    assert_eq!(ports[1], 9103);
    assert!(!ports.contains(&9102));
    assert_eq!(ports.len(), 98);
}

#[test]
fn port_candidates_empty_when_range_exhausted() {
    let used: Vec<u16> = (PORT_RANGE_START..=PORT_RANGE_END).collect();
    assert!(port_candidates(&used).is_empty());
}

#[test]
fn no_free_port_message_names_the_range() {
    assert_eq!(
        no_free_port_message(),
        "no available ports in range 9100-9199 for MCP bridge. Free a port with: lsof -i :<port> -sTCP:LISTEN | kill <PID>"
    );
}

#[test]
fn cli_registration_records_running_bridge() {
    let cmd = vec!["npx".to_string(), "@tavily/mcp".to_string()];
    let r = cli_registration("staging", "tavily", &cmd, 42, 9100);
    assert_eq!(r.sandbox, "staging");
    assert_eq!(r.server_name, "tavily");
    assert_eq!(r.transport, Transport::StdioHttp);
    assert_eq!(r.command, cmd);
    assert_eq!(r.bridge_pid, 42);
    assert_eq!(r.forwarded_port, 9100);
    assert_eq!(r.status, BridgeStatus::Running);
    assert_eq!(r.process_start_time, None);
}

#[test]
fn duplicate_error_mentions_remove_command() {
    let msg = already_registered_message("perplexity", "dev", 777);
    assert_eq!(
        msg,
        "MCP server 'perplexity' already registered on sandbox 'dev' (PID 777). Use `darkshell mcp remove dev --name perplexity` first."
    );
    assert!(msg.contains("already registered"));
    assert!(msg.contains("mcp remove"));
}

#[test]
fn not_found_lists_available_servers() {
    let msg = not_found_message(
        "nonexistent",
        "dev",
        &vec!["perplexity".to_string(), "tavily".to_string()],
    );
    assert_eq!(
        msg,
        "MCP server 'nonexistent' not found on sandbox 'dev'. Available MCP servers: perplexity, tavily"
    );
}

#[test]
fn not_found_without_servers_says_none_registered() {
    let msg = not_found_message("nonexistent", "dev", &vec![]);
    assert!(msg.contains("not found"));
    assert!(msg.contains("No MCP servers are registered"));
}

#[test]
fn list_lines_for_empty_sandbox() {
    let lines = list_lines("empty", &vec![], &vec![]);
    assert_eq!(lines, vec!["No MCP servers registered for sandbox 'empty'.".to_string()]);
}

#[test]
fn list_lines_table_layout() {
    let regs = vec![registration("dev", "perplexity", 9100), registration("dev", "tavily", 9101)];
    let lines = list_lines("dev", &regs, &vec![true, false]);
    assert_eq!(lines.len(), 4);
    assert_eq!(
        lines[0],
        format!("{:<20} {:<15} {:<8} {:<10} {:<10}", "SERVER", "TRANSPORT", "PORT", "PID", "STATUS")
    );
    assert_eq!(lines[1], "-".repeat(63));
    assert_eq!(
        lines[2],
        format!("{:<20} {:<15} {:<8} {:<10} {:<10}", "perplexity", "stdio-http", 9100, 1234, "running")
    );
    assert_eq!(
        lines[3],
        format!("{:<20} {:<15} {:<8} {:<10} {:<10}", "tavily", "stdio-http", 9101, 1234, "stopped")
    );
}

#[test]
fn bridge_process_names() {
    assert!(looks_like_bridge(""));
    assert!(looks_like_bridge("node"));
    assert!(looks_like_bridge("darkshell-mcp-bridge"));
    assert!(looks_like_bridge("mcp-server"));
    assert!(!looks_like_bridge("bash"));
    assert!(!looks_like_bridge("postgres"));
}

#[test]
fn cleanup_summary_counts_servers() {
    assert_eq!(cleanup_summary(2, "dev"), "\u{2713} Cleaned up 2 MCP server(s) for sandbox 'dev'");
}

use darkshell::bridge_error::BridgeError;
use darkshell::registry::{
    default_config_dir, registration_path, registry_dir, sandbox_registrations, sort_registrations,
    validate_name, cleanup_sandbox,
    BridgeRegistration, BridgeStatus, Transport,
};

#[test]
fn registration_path_format() {
    let path = registration_path("/tmp/test-config", "dev", "perplexity").expect("valid names");
    assert_eq!(path, "/tmp/test-config/darkshell/mcp/dev-perplexity.yaml");
}

#[test]
fn validate_name_accepts_lowercase_alphanumeric_and_hyphens() {
    assert!(validate_name("dev").is_ok());
    assert!(validate_name("my-sandbox-1").is_ok());
    assert!(validate_name("abc123").is_ok());
    assert!(validate_name("a").is_ok());
}

#[test]
fn validate_name_rejects_empty() {
    assert!(validate_name("").is_err());
}

#[test]
fn validate_name_rejects_path_traversal() {
    assert!(validate_name("../etc/passwd").is_err());
    assert!(validate_name("foo/bar").is_err());
}

#[test]
fn validate_name_rejects_null_bytes() {
    assert!(validate_name("foo\0bar").is_err());
}

#[test]
fn validate_name_rejects_uppercase() {
    assert!(validate_name("Dev").is_err());
    assert!(validate_name("SANDBOX").is_err());
}

#[test]
fn validate_name_rejects_special_characters() {
    assert!(validate_name("my_sandbox").is_err());
    assert!(validate_name("my sandbox").is_err());
    assert!(validate_name("foo.bar").is_err());
}

#[test]
fn registration_path_rejects_invalid_names() {
    let config_dir = "/tmp/test-config";
    assert!(registration_path(config_dir, "../etc", "passwd").is_err());
    assert!(registration_path(config_dir, "dev", "foo/bar").is_err());
    assert!(registration_path(config_dir, "dev", "").is_err());
}

#[test]
fn validate_name_errors_say_why() {
    match validate_name("") {
        Err(BridgeError::RegistrationIo { reason }) => assert_eq!(reason, "name must not be empty"),
        other => panic!("unexpected: {other:?}"),
    }
    match validate_name("A_b") {
        Err(BridgeError::RegistrationIo { reason }) => assert_eq!(
            reason,
            "name 'A_b' contains invalid characters. Only lowercase letters, digits, and hyphens [a-z0-9-] are allowed"
        ),
        other => panic!("unexpected: {other:?}"),
    }
    let e = validate_name("").unwrap_err();
    assert_eq!(e.to_display_string(), "registration file error: name must not be empty");
}

#[test]
fn registry_paths_join_like_paths() {
    assert_eq!(registry_dir("/home/u/.config"), "/home/u/.config/darkshell/mcp");
    assert_eq!(registry_dir("/home/u/.config/"), "/home/u/.config/darkshell/mcp");
    assert_eq!(registry_dir(""), "darkshell/mcp");
    assert_eq!(default_config_dir(Some("/home/u")).unwrap(), "/home/u/.config");
    match default_config_dir(None) {
        Err(BridgeError::RegistrationIo { reason }) => {
            assert_eq!(reason, "HOME environment variable not set")
        }
        other => panic!("unexpected: {other:?}"),
    }
}

fn reg(sandbox: &str, server: &str) -> BridgeRegistration {
    BridgeRegistration {
        sandbox: sandbox.to_string(),
        server_name: server.to_string(),
        transport: Transport::StdioHttp,
        command: vec!["npx".to_string(), "server".to_string()],
        bridge_pid: 42,
        forwarded_port: 9100,
        status: BridgeStatus::Running,
        process_start_time: Some(1_700_000_000),
    }
}

#[test]
fn sandbox_registrations_keeps_only_that_sandbox_in_order() {
    let regs = vec![reg("dev", "b"), reg("prod", "a"), reg("dev", "a")];
    let mine = sandbox_registrations(&regs, "dev");
    let names: Vec<&str> = mine.iter().map(|r| r.server_name.as_str()).collect();
    assert_eq!(names, vec!["b", "a"]);
    assert!(sandbox_registrations(&regs, "none").is_empty());
}

#[test]
fn list_registrations_returns_all_sorted() {
    let list = sort_registrations(vec![
        reg("dev", "tavily"),
        reg("dev", "perplexity"),
        reg("staging", "github"),
    ]);
    assert_eq!(list.len(), 3);
    assert_eq!(list[0].server_name, "perplexity");
    assert_eq!(list[1].server_name, "tavily");
    assert_eq!(list[2].server_name, "github");
}

#[test]
fn sort_registrations_orders_by_sandbox_then_server() {
    let list = sort_registrations(vec![
        reg("staging", "a"),
        reg("dev-2", "a"),
        reg("dev", "z"),
        reg("dev", "a-1"),
        reg("dev", "a"),
    ]);
    let keys: Vec<(String, String)> =
        list.iter().map(|r| (r.sandbox.clone(), r.server_name.clone())).collect();
    let mut expected = keys.clone();
    expected.sort();
    assert_eq!(keys, expected);
    assert_eq!(keys[0], ("dev".to_string(), "a".to_string()));
    assert_eq!(keys[4], ("staging".to_string(), "a".to_string()));
    assert!(sort_registrations(vec![]).is_empty());
}

#[test]
fn cleanup_sandbox_removes_all_for_sandbox() {
    let listed = sort_registrations(vec![
        reg("dev", "perplexity"),
        reg("dev", "tavily"),
        reg("staging", "github"),
    ]);
    let removed = cleanup_sandbox(&listed, "dev");
    assert_eq!(removed.len(), 2);
    assert!(removed.contains(&"perplexity".to_string()));
    assert!(removed.contains(&"tavily".to_string()));
    let remaining: Vec<&BridgeRegistration> =
        listed.iter().filter(|r| !(r.sandbox == "dev")).collect();
    assert_eq!(remaining.len(), 1);
    assert_eq!(remaining[0].sandbox, "staging");
}

#[test]
fn cleanup_sandbox_no_matches_returns_empty() {
    let listed = vec![reg("dev", "perplexity")];
    assert!(cleanup_sandbox(&listed, "nonexistent").is_empty());
}

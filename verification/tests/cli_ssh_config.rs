use darkshell::ssh_config::{
    host_alias, host_line_matches, lines, render_include_line, render_ssh_config,
    ssh_config_includes_path, upsert_host_block, with_include,
};

fn chars(s: &str) -> Vec<char> {
    s.chars().collect()
}

#[test]
fn upsert_host_block_appends_when_missing() {
    let input = "Host existing\n  HostName example.com\n";
    let block = "Host openshell-demo\n    User sandbox\n";
    let output = upsert_host_block(input, "openshell-demo", block);
    assert!(output.contains("Host existing"));
    assert!(output.contains("Host openshell-demo"));
    assert_eq!(output.matches("Host openshell-demo").count(), 1);
}

#[test]
fn upsert_host_block_replaces_existing_without_duplicates() {
    let input = "Host openshell-demo\n    User old\n\nHost other\n    HostName other.example\n";
    let block = "Host openshell-demo\n    User sandbox\n    LogLevel ERROR\n";
    let output = upsert_host_block(input, "openshell-demo", block);
    assert!(!output.contains("User old"));
    assert!(output.contains("LogLevel ERROR"));
    assert!(output.contains("Host other"));
    assert_eq!(output.matches("Host openshell-demo").count(), 1);
}

#[test]
fn upsert_exact_output() {
    let block = "Host openshell-demo\n    User sandbox\n";
    assert_eq!(
        upsert_host_block("Host a\n  X 1\n", "openshell-demo", block),
        "Host a\n  X 1\n\nHost openshell-demo\n    User sandbox\n"
    );
    assert_eq!(upsert_host_block("", "openshell-demo", block), "Host openshell-demo\n    User sandbox\n");
    assert_eq!(
        upsert_host_block("Host openshell-demo\n  old\nHost b\n", "openshell-demo", block),
        "Host openshell-demo\n    User sandbox\n\nHost b\n"
    );
    // An upsert of the same block is stable.
    let once = upsert_host_block("Host a\n", "openshell-demo", block);
    assert_eq!(upsert_host_block(&once, "openshell-demo", block), once);
}

#[test]
fn host_lines_match_by_pattern_word() {
    assert!(host_line_matches(&chars("  Host a openshell-demo"), "openshell-demo"));
    assert!(!host_line_matches(&chars("Host openshell-demo2"), "openshell-demo"));
    assert!(!host_line_matches(&chars("HostName openshell-demo"), "openshell-demo"));
    assert_eq!(host_alias("demo"), "openshell-demo");
}

#[test]
fn lines_follow_str_lines() {
    for text in ["", "a", "a\n", "a\r\nb", "a\n\nb\r", "\n", "x\r"] {
        let ours: Vec<String> = lines(text).into_iter().map(|l| l.into_iter().collect()).collect();
        let std: Vec<String> = text.lines().map(|l| l.to_string()).collect();
        assert_eq!(ours, std, "lines of {text:?}");
    }
}

#[test]
fn include_lines_are_inserted_once() {
    assert_eq!(render_include_line("/x/ssh_config"), "Include \"/x/ssh_config\"");
    let base = "Host personal\n    HostName example.com\n";
    let once = with_include(base, "/x/ssh_config");
    assert_eq!(once, "Include \"/x/ssh_config\"\n\nHost personal\n    HostName example.com\n");
    assert!(ssh_config_includes_path(&once, "/x/ssh_config"));
    assert!(!ssh_config_includes_path(base, "/x/ssh_config"));
    let twice = with_include(&once, "/x/ssh_config");
    assert_eq!(twice.matches("Include ").count(), 1);
    assert_eq!(with_include("", "/p"), "Include \"/p\"\n");
    assert!(ssh_config_includes_path("  Include /p other\n", "/p"));
}

#[test]
fn managed_host_block() {
    assert_eq!(
        render_ssh_config("/usr/bin/openshell", "gw", "demo"),
        "Host openshell-demo\n    User sandbox\n    StrictHostKeyChecking no\n    UserKnownHostsFile /dev/null\n    GlobalKnownHostsFile /dev/null\n    LogLevel ERROR\n    ProxyCommand /usr/bin/openshell ssh-proxy --gateway-name gw --name demo\n"
    );
}

#[test]
fn include_line_is_kept_once_across_repeated_updates() {
    let managed = "/home/u/.ssh/openshell_config";
    let start = "Include \"/home/u/.ssh/openshell_config\"\nUser me\nHost a\n  Port 22\n";
    let once = with_include(start, managed);
    let twice = with_include(&once, managed);
    for text in [&once, &twice] {
        let count = text
            .lines()
            .filter(|l| ssh_config_includes_path(l, managed))
            .count();
        assert_eq!(count, 1, "{text}");
    }
    assert!(twice.contains("Host a"));
}

#[test]
fn install_ssh_config_adds_include_once_and_updates_managed_file() {
    let managed_path = "/tmp/xdg/openshell/ssh_config";
    let mut main_contents = "Host personal\n    HostName example.com\n".to_string();
    let mut managed_contents = String::new();
    for _ in 0..2 {
        main_contents = with_include(&main_contents, managed_path);
        let block = render_ssh_config("/usr/local/bin/openshell", "openshell", "demo");
        managed_contents = upsert_host_block(&managed_contents, &host_alias("demo"), &block);
    }
    assert!(main_contents.contains("Host personal"));
    assert_eq!(main_contents.matches("Include ").count(), 1);
    assert!(main_contents.contains(&render_include_line(managed_path)));
    let include_idx = main_contents.find("Include ").unwrap();
    let host_idx = main_contents.find("Host personal").unwrap();
    assert!(include_idx < host_idx);
    assert_eq!(managed_contents.matches("Host openshell-demo").count(), 1);
    assert!(managed_contents.contains("ProxyCommand"));
}

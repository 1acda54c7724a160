use darkshell::registry::validate_name;
use darkshell::transfer::{
    build_rsync_args, calculate_files_size, calculate_local_size, Editor, LocalEntry,
    RsyncUploadOptions, TransferDirection, ssh_base_args, ssh_exec_args, ssh_forward_args,
    download_parts_of, download_tar_command, rsync_failure,
};

const PROXY: &str =
    "darkshell ssh-proxy --gateway http://gw --sandbox-id abc --token tok --gateway-name gw1";

#[test]
fn rsync_upload_command_includes_archive_compress_delete() {
    let options = RsyncUploadOptions { follow_symlinks: true, progress: false };
    let args = build_rsync_args(PROXY, "/tmp/myproject", false, "/sandbox", &options);
    assert!(args.contains(&"-az".to_string()), "must include -az flag");
    assert!(args.contains(&"--delete".to_string()), "must include --delete flag");
}

#[test]
fn rsync_uses_proxy_command_transport() {
    let options = RsyncUploadOptions { follow_symlinks: true, progress: false };
    let args = build_rsync_args(PROXY, "/tmp/src", false, "/sandbox", &options);
    let e_idx = args.iter().position(|a| a == "-e").expect("must include -e flag");
    let ssh_cmd = &args[e_idx + 1];
    assert!(ssh_cmd.contains("ProxyCommand="), "SSH command must include ProxyCommand");
    assert!(ssh_cmd.contains("darkshell ssh-proxy"), "SSH command must reference the darkshell ssh-proxy");
    assert!(ssh_cmd.contains("StrictHostKeyChecking=no"), "SSH command must disable strict host key checking");
}

#[test]
fn rsync_follows_symlinks_by_default() {
    let options = RsyncUploadOptions { follow_symlinks: true, progress: false };
    let args = build_rsync_args("proxy-cmd", "/tmp/src", false, "/sandbox", &options);
    assert!(args.contains(&"-L".to_string()), "must include -L flag when follow_symlinks is true");
}

#[test]
fn rsync_no_follow_symlinks_flag() {
    let options = RsyncUploadOptions { follow_symlinks: false, progress: false };
    let args = build_rsync_args("proxy-cmd", "/tmp/src", false, "/sandbox", &options);
    assert!(!args.contains(&"-L".to_string()), "must NOT include -L flag when follow_symlinks is false");
}

#[test]
fn rsync_progress_compatible() {
    let options = RsyncUploadOptions { follow_symlinks: true, progress: true };
    let args = build_rsync_args("proxy-cmd", "/tmp/src", false, "/sandbox", &options);
    assert!(args.contains(&"-P".to_string()), "must include -P flag when progress is true");
    let quiet_options = RsyncUploadOptions { follow_symlinks: true, progress: false };
    let quiet_args = build_rsync_args("proxy-cmd", "/tmp/src", false, "/sandbox", &quiet_options);
    assert!(!quiet_args.contains(&"-P".to_string()), "must NOT include -P flag when progress is false");
}

#[test]
fn rsync_destination_format() {
    let options = RsyncUploadOptions { follow_symlinks: true, progress: false };
    let args = build_rsync_args("proxy-cmd", "/tmp/src", false, "/sandbox/workspace", &options);
    let last = args.last().expect("args must not be empty");
    assert_eq!(last, "sandbox:/sandbox/workspace/");
}

#[test]
fn rsync_directory_source_gets_trailing_slash() {
    let options = RsyncUploadOptions { follow_symlinks: true, progress: false };
    let args = build_rsync_args("proxy-cmd", "/tmp/some-dir", true, "/sandbox", &options);
    let source = &args[args.len() - 2];
    assert!(source.ends_with('/'), "directory source must end with trailing slash, got: {source}");
    assert_eq!(source, "/tmp/some-dir/");
    let args = build_rsync_args("proxy-cmd", "/tmp/some-dir/", true, "/sandbox", &options);
    assert_eq!(args[args.len() - 2], "/tmp/some-dir/");
}

#[test]
fn rsync_always_includes_ssh_transport_for_varied_inputs() {
    let inputs = [
        ("proxy-a", "/tmp/a", "/sandbox", true, true),
        ("proxy-b", "/home/user/project", "/sandbox/workspace", false, false),
        ("proxy-c", "/tmp/c", "/", true, false),
    ];
    for (proxy, local, dest, follow, progress) in inputs {
        let options = RsyncUploadOptions { follow_symlinks: follow, progress };
        let args = build_rsync_args(proxy, local, false, dest, &options);
        let e_idx = args.iter().position(|a| a == "-e").expect("must include -e");
        assert!(args[e_idx + 1].contains(proxy));
        assert_eq!(args.last().unwrap(), &format!("sandbox:{dest}/"));
    }
}

#[test]
fn rsync_exact_arguments() {
    let options = RsyncUploadOptions { follow_symlinks: true, progress: true };
    let args = build_rsync_args("P", "/src", false, "/dst", &options);
    assert_eq!(
        args,
        vec![
            "-az",
            "--delete",
            "-L",
            "-P",
            "-e",
            "ssh -o ProxyCommand=P -o StrictHostKeyChecking=no -o UserKnownHostsFile=/dev/null -o GlobalKnownHostsFile=/dev/null",
            "/src",
            "sandbox:/dst/",
        ]
    );
    assert!(RsyncUploadOptions::defaults(false).follow_symlinks);
    assert!(!RsyncUploadOptions::defaults(false).progress);
}

#[test]
fn rsync_upload_options_default_follows_symlinks() {
    let options = RsyncUploadOptions { follow_symlinks: true, progress: false };
    assert!(options.follow_symlinks, "follow_symlinks should be true when set");
}

#[test]
fn rsync_upload_options_no_follow_symlinks() {
    let options = RsyncUploadOptions { follow_symlinks: false, progress: false };
    assert!(!options.follow_symlinks, "follow_symlinks should be false when disabled");
}

#[test]
fn test_calculate_local_size_nonexistent() {
    assert_eq!(calculate_local_size(&LocalEntry::Missing), 0);
}

#[test]
fn test_calculate_local_size_nonexistent_returns_zero() {
    let size = calculate_local_size(&LocalEntry::Missing);
    assert_eq!(size, 0, "nonexistent path should return 0 bytes");
}

#[test]
fn test_calculate_local_size_empty_dir() {
    assert_eq!(calculate_local_size(&LocalEntry::Dir { entries: vec![] }), 0);
}

#[test]
fn test_calculate_files_size_empty_list() {
    assert_eq!(calculate_files_size(&vec![]), 0);
}

#[test]
fn nested_sizes_add_up() {
    let tree = LocalEntry::Dir {
        entries: vec![
            LocalEntry::File { size: 3 },
            LocalEntry::Dir { entries: vec![LocalEntry::File { size: 5 }, LocalEntry::Missing] },
        ],
    };
    assert_eq!(calculate_local_size(&tree), 8);
    assert_eq!(calculate_files_size(&vec![LocalEntry::File { size: 3 }, LocalEntry::File { size: 5 }]), 8);
}

#[test]
fn test_direction_labels() {
    assert_eq!(TransferDirection::Upload.label(), "Uploading");
    assert_eq!(TransferDirection::Download.label(), "Downloading");
}

#[test]
fn editor_targets() {
    assert_eq!(Editor::Vscode.binary(), "code");
    assert_eq!(Editor::Cursor.binary(), "cursor");
    assert_eq!(Editor::Vscode.label(), "VS Code");
    assert_eq!(Editor::Cursor.remote_target("openshell-dev"), "ssh-remote+openshell-dev");
}

#[test]
fn test_validate_server_name_rejects_path_traversal() {
    assert!(validate_name("../etc/passwd").is_err(), "path traversal names must be rejected: ../etc/passwd");
    assert!(validate_name("foo/bar").is_err(), "names containing '/' must be rejected: foo/bar");
}

#[test]
fn test_validate_server_name_rejects_uppercase() {
    assert!(validate_name("MyServer").is_err(), "uppercase names must be rejected");
    assert!(validate_name("ALLCAPS").is_err(), "all-uppercase names must be rejected");
}

#[test]
fn test_validate_server_name_accepts_valid() {
    assert!(validate_name("my-server-1").is_ok(), "hyphenated lowercase name should be accepted");
    assert!(validate_name("perplexity").is_ok(), "simple lowercase name should be accepted");
    assert!(validate_name("tavily").is_ok(), "simple lowercase name should be accepted");
}

#[test]
fn test_validate_server_name_rejects_empty() {
    assert!(validate_name("").is_err(), "empty names must be rejected");
}

#[test]
fn test_validate_server_name_rejects_spaces() {
    assert!(validate_name("my server").is_err(), "names with spaces must be rejected");
}

#[test]
fn test_validate_server_name_rejects_special_characters() {
    assert!(validate_name("my_server").is_err(), "underscores should be rejected");
    assert!(validate_name("foo.bar").is_err(), "dots should be rejected");
}

fn strs(v: &[&str]) -> Vec<String> {
    v.iter().map(|s| s.to_string()).collect()
}

#[test]
fn ssh_base_args_disable_host_key_checks() {
    assert_eq!(
        ssh_base_args("px"),
        strs(&[
            "-o",
            "ProxyCommand=px",
            "-o",
            "StrictHostKeyChecking=no",
            "-o",
            "UserKnownHostsFile=/dev/null",
            "-o",
            "GlobalKnownHostsFile=/dev/null",
            "-o",
            "LogLevel=ERROR",
        ])
    );
}

#[test]
fn ssh_exec_args_with_and_without_tty() {
    let tty = ssh_exec_args("px", true, "'ls' '-la'");
    assert_eq!(
        tty[10..].to_vec(),
        strs(&["-tt", "-o", "RequestTTY=force", "-o", "SetEnv=TERM=xterm-256color", "sandbox", "'ls' '-la'"])
    );
    let plain = ssh_exec_args("px", false, "echo");
    assert_eq!(plain[10..].to_vec(), strs(&["-T", "-o", "RequestTTY=no", "sandbox", "echo"]));
}

#[test]
fn ssh_forward_args_background_adds_fork_flag() {
    let fg = ssh_forward_args("px", "8080:127.0.0.1:8080", false);
    assert_eq!(
        fg[10..].to_vec(),
        strs(&["-N", "-o", "ExitOnForwardFailure=yes", "-L", "8080:127.0.0.1:8080", "sandbox"])
    );
    let bg = ssh_forward_args("px", "8080:127.0.0.1:8080", true);
    assert_eq!(bg[bg.len() - 2], "-f");
    assert_eq!(bg.len(), fg.len() + 1);
}

fn parts(p: &str) -> (String, String, String) {
    download_parts_of(p)
}

#[test]
fn download_parts_split_parent_and_name() {
    assert_eq!(parts("/sandbox/out/report.txt"), ("/sandbox/out/report.txt".into(), "/sandbox/out".into(), "report.txt".into()));
    assert_eq!(parts("/sandbox/out///"), ("/sandbox/out".into(), "/sandbox".into(), "out".into()));
    assert_eq!(parts("/etc"), ("/etc".into(), "/".into(), "etc".into()));
    assert_eq!(parts("notes.md"), ("notes.md".into(), ".".into(), "notes.md".into()));
    assert_eq!(parts("/"), ("".into(), ".".into(), "".into()));
}

#[test]
fn rsync_vanished_files_count_as_success() {
    assert_eq!(rsync_failure("dev", Some(24), "vanished"), None);
    assert_eq!(
        rsync_failure("dev", Some(23), "boom"),
        Some(
            "rsync upload to sandbox 'dev' failed (exit code 23).\nstderr: boom\nIf the sandbox image lacks rsync, retry without --rsync to use tar upload."
                .to_string()
        )
    );
    assert!(rsync_failure("dev", None, "").unwrap().contains("(exit code 1)"));
    assert!(rsync_failure("dev", Some(-9), "").unwrap().contains("(exit code -9)"));
}

#[test]
fn test_calculate_local_size_empty_dir_returns_zero() {
    assert_eq!(calculate_local_size(&LocalEntry::Dir { entries: vec![] }), 0);
}

#[test]
fn download_archives_directory_contents_or_single_file() {
    assert_eq!(
        download_tar_command("/sandbox/out/"),
        "if [ -d '/sandbox/out' ]; then tar cf - -C '/sandbox/out' .; else tar cf - -C '/sandbox' 'out'; fi"
    );
    assert_eq!(
        download_tar_command("it's.txt"),
        "if [ -d 'it'\\''s.txt' ]; then tar cf - -C 'it'\\''s.txt' .; else tar cf - -C '.' 'it'\\''s.txt'; fi"
    );
}

#[test]
fn rsync_file_source_no_trailing_slash() {
    let options = RsyncUploadOptions { follow_symlinks: true, progress: false };
    let args = build_rsync_args("proxy-cmd", "/tmp/upload/test.txt", false, "/sandbox", &options);
    let source = &args[args.len() - 2];
    assert!(!source.ends_with('/'), "file source must NOT end with trailing slash, got: {source}");
}

fn file_of(contents: &str) -> LocalEntry {
    LocalEntry::File { size: contents.len() as u64 }
}

#[test]
fn test_calculate_local_size_file() {
    assert_eq!(calculate_local_size(&file_of("hello world")), 11);
}

#[test]
fn test_calculate_local_size_nested_dir() {
    let tree = LocalEntry::Dir {
        entries: vec![file_of("aaa"), LocalEntry::Dir { entries: vec![file_of("bbbbb")] }],
    };
    assert_eq!(calculate_local_size(&tree), 8);
}

#[test]
fn test_calculate_files_size() {
    let files = vec![file_of("aaa"), file_of("bbbbb")];
    assert_eq!(calculate_files_size(&files), 8);
}

#[test]
fn test_calculate_local_size() {
    let tree = LocalEntry::Dir {
        entries: vec![
            file_of("hello"),
            file_of("world!"),
            LocalEntry::Dir { entries: vec![file_of("!!")] },
        ],
    };
    assert_eq!(calculate_local_size(&tree), 13, "expected total size of 13 bytes");
}

//! File transfer helpers for the CLI: sizes of local trees, transfer
//! direction labels, the rsync command line of an upload, and editor
//! launch targets.

use vstd::prelude::*;
use crate::logging::{i64_text, push_i64};
use crate::text::{
    chars_of, concat2, push_char, push_str_chars, rfind, rfind_exec, shell_quote, shell_quoted,
    str_ends_with, string_from_chars, subvec, to_owned_string,
};

verus! {

// ---------------------------------------------------------------------------
// Local sizes
// ---------------------------------------------------------------------------

/// What a local path holds, as far as its size goes: a file of some byte
/// length, a directory with entries, or nothing countable (a missing path,
/// an unreadable entry, anything that is neither file nor directory).
#[derive(Debug)]
pub enum LocalEntry {
    /// A regular file of `size` bytes.
    File { size: u64 },
    /// A directory and its readable entries.
    Dir { entries: Vec<LocalEntry> },
    /// Nothing that counts.
    Missing,
}

/// The total byte size of an entry: a file's length, a directory's entries
/// summed recursively, zero for anything else.
pub open spec fn entry_size(e: LocalEntry) -> nat
    decreases e,
{
    match e {
        LocalEntry::File { size } => size as nat,
        LocalEntry::Dir { entries } => entries_size(entries@),
        LocalEntry::Missing => 0,
    }
}

/// The summed sizes of a list of entries.
pub open spec fn entries_size(es: Seq<LocalEntry>) -> nat
    decreases es,
{
    if es.len() == 0 {
        0
    } else {
        entries_size(es.drop_last()) + entry_size(es.last())
    }
}

/// Calculate the total byte size of a local path (file or directory,
/// recursive): zero for empty directories and missing paths.
pub fn calculate_local_size(entry: &LocalEntry) -> (r: u64)
    requires
        entry_size(*entry) <= u64::MAX,
    ensures
        r == entry_size(*entry),
    decreases *entry,
{
    match entry {
        LocalEntry::File { size } => *size,
        LocalEntry::Dir { entries } => {
            let mut total: u64 = 0;
            let mut i: usize = 0;
            while i < entries.len()
                invariant
                    i <= entries@.len(),
                    *entry is Dir,
                    (*entry)->entries == *entries,
                    entry_size(*entry) <= u64::MAX,
                    entries_size(entries@) <= u64::MAX,
                    total == entries_size(entries@.take(i as int)),
                decreases entries.len() - i,
            {
                proof {
                    let t = entries@.take(i + 1);
                    assert(t.drop_last() =~= entries@.take(i as int));
                    lemma_entries_size_prefix(entries@, i + 1);
                }
                proof {
                    broadcast use vstd::std_specs::vec::axiom_vec_decreases_to_view;

                    let v: Vec<LocalEntry> = (*entry)->entries;
                    assert(decreases_to!(*entry => v));
                    assert(decreases_to!(v => v@));
                    assert(decreases_to!(v@ => v@[i as int]));
                    assert(decreases_to!(*entry => entries@[i as int]));
                }
                let s = calculate_local_size(&entries[i]);
                total = total + s;
                i = i + 1;
            }
            assert(entries@.take(i as int) =~= entries@);
            total
        },
        LocalEntry::Missing => 0,
    }
}

proof fn lemma_entries_size_prefix(es: Seq<LocalEntry>, k: int)
    requires
        0 <= k <= es.len(),
    ensures
        entries_size(es.take(k)) <= entries_size(es),
    decreases es.len(),
{
    if k < es.len() {
        assert(es.drop_last().take(k) =~= es.take(k));
        lemma_entries_size_prefix(es.drop_last(), k);
    } else {
        assert(es.take(k) =~= es);
    }
}

/// Calculate the total byte size of a list of files (each as found under
/// the base directory).
pub fn calculate_files_size(files: &Vec<LocalEntry>) -> (r: u64)
    requires
        entries_size(files@) <= u64::MAX,
    ensures
        r == entries_size(files@),
{
    let mut total: u64 = 0;
    let mut i: usize = 0;
    while i < files.len()
        invariant
            i <= files@.len(),
            entries_size(files@) <= u64::MAX,
            total == entries_size(files@.take(i as int)),
        decreases files.len() - i,
    {
        proof {
            let t = files@.take(i + 1);
            assert(t.drop_last() =~= files@.take(i as int));
            lemma_entries_size_prefix(files@, i + 1);
        }
        let s = calculate_local_size(&files[i]);
        total = total + s;
        i = i + 1;
    }
    assert(files@.take(i as int) =~= files@);
    total
}

// ---------------------------------------------------------------------------
// Transfer direction
// ---------------------------------------------------------------------------

/// Direction of a transfer, shown as the progress bar prefix.
#[derive(Debug, Clone, Copy, PartialEq, Eq, Structural)]
pub enum TransferDirection {
    /// Local to sandbox.
    Upload,
    /// Sandbox to local.
    Download,
}

impl TransferDirection {
    /// The progress bar prefix: "Uploading" or "Downloading".
    pub fn label(self) -> (r: &'static str)
        ensures
            r@ == match self {
                TransferDirection::Upload => "Uploading"@,
                TransferDirection::Download => "Downloading"@,
            },
    {
        match self {
            TransferDirection::Upload => "Uploading",
            TransferDirection::Download => "Downloading",
        }
    }
}

// ---------------------------------------------------------------------------
// Editors
// ---------------------------------------------------------------------------

/// An editor that can open a sandbox over SSH.
#[derive(Clone, Copy, Debug, PartialEq, Eq, Structural)]
pub enum Editor {
    /// Visual Studio Code.
    Vscode,
    /// Cursor.
    Cursor,
}

impl Editor {
    /// The editor's command.
    pub fn binary(self) -> (r: &'static str)
        ensures
            r@ == match self {
                Editor::Vscode => "code"@,
                Editor::Cursor => "cursor"@,
            },
    {
        match self {
            Editor::Vscode => "code",
            Editor::Cursor => "cursor",
        }
    }

    /// The editor's remote target for an SSH host alias: `ssh-remote+<alias>`.
    pub fn remote_target(self, host_alias: &str) -> (r: String)
        ensures
            r@ == "ssh-remote+"@ + host_alias@,
    {
        concat2("ssh-remote+", host_alias)
    }

    /// The editor's display name.
    pub fn label(self) -> (r: &'static str)
        ensures
            r@ == match self {
                Editor::Vscode => "VS Code"@,
                Editor::Cursor => "Cursor"@,
            },
    {
        match self {
            Editor::Vscode => "VS Code",
            Editor::Cursor => "Cursor",
        }
    }
}

// ---------------------------------------------------------------------------
// Rsync uploads
// ---------------------------------------------------------------------------

/// Options controlling rsync upload behavior.
#[derive(Debug, Clone, Copy)]
pub struct RsyncUploadOptions {
    /// Follow symlinks in the source directory (rsync `-L` flag).
    pub follow_symlinks: bool,
    /// Show progress output (rsync `-P` flag). Off when not a TTY.
    pub progress: bool,
}

impl RsyncUploadOptions {
    /// The default options: follow symlinks, and show progress when stderr
    /// is a terminal (`stderr_is_tty`).
    pub fn defaults(stderr_is_tty: bool) -> (r: Self)
        ensures
            r.follow_symlinks,
            r.progress == stderr_is_tty,
    {
        RsyncUploadOptions { follow_symlinks: true, progress: stderr_is_tty }
    }
}

/// The `ssh` command rsync uses as its transport.
pub open spec fn rsync_ssh_command(proxy_command: Seq<char>) -> Seq<char> {
    "ssh -o ProxyCommand="@ + proxy_command
        + " -o StrictHostKeyChecking=no -o UserKnownHostsFile=/dev/null -o GlobalKnownHostsFile=/dev/null"@
}

/// The upload source: a directory gets a trailing `/` (so rsync copies its
/// contents) unless it already has one; a file is used as it is.
pub open spec fn rsync_source(local_path: Seq<char>, is_dir: bool) -> Seq<char> {
    if is_dir && !(local_path.len() > 0 && local_path.last() == '/') {
        local_path.push('/')
    } else {
        local_path
    }
}

/// The rsync arguments of an upload, in order.
pub open spec fn rsync_args(
    proxy_command: Seq<char>,
    local_path: Seq<char>,
    local_is_dir: bool,
    sandbox_dest: Seq<char>,
    options: RsyncUploadOptions,
) -> Seq<Seq<char>> {
    seq!["-az"@, "--delete"@] + (if options.follow_symlinks {
        seq!["-L"@]
    } else {
        Seq::empty()
    }) + (if options.progress {
        seq!["-P"@]
    } else {
        Seq::empty()
    }) + seq![
        "-e"@,
        rsync_ssh_command(proxy_command),
        rsync_source(local_path, local_is_dir),
        "sandbox:"@ + sandbox_dest + "/"@,
    ]
}

/// Every rsync upload goes through the sandbox's SSH proxy, whatever the
/// inputs: the arguments start with `-az --delete` and end with `-e`, an
/// `ssh` command whose `ProxyCommand` is the given proxy command, the source
/// and the `sandbox:` destination.
pub proof fn lemma_rsync_always_uses_proxy(
    proxy_command: Seq<char>,
    local_path: Seq<char>,
    local_is_dir: bool,
    sandbox_dest: Seq<char>,
    options: RsyncUploadOptions,
)
    ensures
        ({
            let a = rsync_args(proxy_command, local_path, local_is_dir, sandbox_dest, options);
            &&& a.len() >= 6
            &&& a[0] == "-az"@ && a[1] == "--delete"@
            &&& a[a.len() - 4] == "-e"@
            &&& ("ssh -o ProxyCommand="@ + proxy_command).is_prefix_of(a[a.len() - 3])
            &&& a[a.len() - 2] == rsync_source(local_path, local_is_dir)
            &&& a[a.len() - 1] == "sandbox:"@ + sandbox_dest + "/"@
        }),
{
    let a = rsync_args(proxy_command, local_path, local_is_dir, sandbox_dest, options);
    let head = "ssh -o ProxyCommand="@ + proxy_command;
    let cmd = rsync_ssh_command(proxy_command);
    assert(cmd.subrange(0, head.len() as int) =~= head);
}

/// Build the rsync command-line arguments for an upload: archive mode with
/// compression and deletion of extraneous files, `-L` to follow symlinks,
/// `-P` for progress, the SSH transport through the sandbox proxy command,
/// the source (`local_is_dir` says whether it is a directory), and the
/// destination `sandbox:<dest>/`.
pub fn build_rsync_args(
    proxy_command: &str,
    local_path: &str,
    local_is_dir: bool,
    sandbox_dest: &str,
    options: &RsyncUploadOptions,
) -> (r: Vec<String>)
    ensures
        r@.map_values(|a: String| a@) == rsync_args(
            proxy_command@,
            local_path@,
            local_is_dir,
            sandbox_dest@,
            *options,
        ),
{
    let mut args: Vec<String> = Vec::new();
    args.push(to_owned_string("-az"));
    args.push(to_owned_string("--delete"));
    if options.follow_symlinks {
        args.push(to_owned_string("-L"));
    }
    if options.progress {
        args.push(to_owned_string("-P"));
    }
    let mut ssh = to_owned_string("ssh -o ProxyCommand=");
    push_str_chars(&mut ssh, proxy_command);
    push_str_chars(
        &mut ssh,
        " -o StrictHostKeyChecking=no -o UserKnownHostsFile=/dev/null -o GlobalKnownHostsFile=/dev/null",
    );
    args.push(to_owned_string("-e"));
    args.push(ssh);
    let mut source = to_owned_string(local_path);
    let ends = str_ends_with(local_path, "/");
    proof {
        reveal_strlit("/");
        if local_path@.len() > 0 && local_path@.last() == '/' {
            assert(local_path@.subrange(local_path@.len() - 1, local_path@.len() as int) =~= "/"@);
        }
        if ends {
            assert(local_path@[local_path@.len() - 1] == "/"@[0]);
        }
    }
    if local_is_dir && !ends {
        push_char(&mut source, '/');
    }
    args.push(source);
    let mut dest = to_owned_string("sandbox:");
    push_str_chars(&mut dest, sandbox_dest);
    push_str_chars(&mut dest, "/");
    args.push(dest);
    assert(args@.map_values(|a: String| a@) =~= rsync_args(
        proxy_command@,
        local_path@,
        local_is_dir,
        sandbox_dest@,
        *options,
    ));
    args
}


/// The options every `ssh` invocation into a sandbox starts with: the proxy
/// command, and no host key checks or noise.
pub open spec fn ssh_base_arg_list(proxy_command: Seq<char>) -> Seq<Seq<char>> {
    seq![
        "-o"@,
        "ProxyCommand="@ + proxy_command,
        "-o"@,
        "StrictHostKeyChecking=no"@,
        "-o"@,
        "UserKnownHostsFile=/dev/null"@,
        "-o"@,
        "GlobalKnownHostsFile=/dev/null"@,
        "-o"@,
        "LogLevel=ERROR"@,
    ]
}

/// The arguments of `ssh` that every connection to a sandbox starts with.
pub fn ssh_base_args(proxy_command: &str) -> (r: Vec<String>)
    ensures
        r@.map_values(|a: String| a@) == ssh_base_arg_list(proxy_command@),
{
    let mut args: Vec<String> = Vec::new();
    args.push(to_owned_string("-o"));
    let mut proxy = to_owned_string("ProxyCommand=");
    push_str_chars(&mut proxy, proxy_command);
    args.push(proxy);
    args.push(to_owned_string("-o"));
    args.push(to_owned_string("StrictHostKeyChecking=no"));
    args.push(to_owned_string("-o"));
    args.push(to_owned_string("UserKnownHostsFile=/dev/null"));
    args.push(to_owned_string("-o"));
    args.push(to_owned_string("GlobalKnownHostsFile=/dev/null"));
    args.push(to_owned_string("-o"));
    args.push(to_owned_string("LogLevel=ERROR"));
    assert(args@.map_values(|a: String| a@) =~= ssh_base_arg_list(proxy_command@));
    args
}

/// The arguments of `ssh` for running `command_line` (already shell-escaped)
/// in a sandbox: a forced terminal with a known `TERM`, or none.
pub open spec fn exec_arg_list(proxy_command: Seq<char>, tty: bool, command_line: Seq<char>) -> Seq<
    Seq<char>,
> {
    ssh_base_arg_list(proxy_command) + (if tty {
        seq!["-tt"@, "-o"@, "RequestTTY=force"@, "-o"@, "SetEnv=TERM=xterm-256color"@]
    } else {
        seq!["-T"@, "-o"@, "RequestTTY=no"@]
    }) + seq!["sandbox"@, command_line]
}

/// The arguments of `ssh` that run `command_line` in a sandbox.
pub fn ssh_exec_args(proxy_command: &str, tty: bool, command_line: &str) -> (r: Vec<String>)
    ensures
        r@.map_values(|a: String| a@) == exec_arg_list(proxy_command@, tty, command_line@),
{
    let mut args = ssh_base_args(proxy_command);
    let ghost base = args@.map_values(|a: String| a@);
    if tty {
        args.push(to_owned_string("-tt"));
        args.push(to_owned_string("-o"));
        args.push(to_owned_string("RequestTTY=force"));
        args.push(to_owned_string("-o"));
        args.push(to_owned_string("SetEnv=TERM=xterm-256color"));
    } else {
        args.push(to_owned_string("-T"));
        args.push(to_owned_string("-o"));
        args.push(to_owned_string("RequestTTY=no"));
    }
    args.push(to_owned_string("sandbox"));
    args.push(to_owned_string(command_line));
    assert(args@.map_values(|a: String| a@) =~= exec_arg_list(proxy_command@, tty, command_line@));
    args
}

/// The arguments of `ssh` that forward a local port (`forward_arg` is the
/// `-L` value) to a sandbox, forking into the background when asked.
pub open spec fn forward_arg_list(proxy_command: Seq<char>, forward_arg: Seq<char>, background: bool) -> Seq<
    Seq<char>,
> {
    ssh_base_arg_list(proxy_command) + seq!["-N"@, "-o"@, "ExitOnForwardFailure=yes"@, "-L"@, forward_arg]
        + (if background {
        seq!["-f"@]
    } else {
        Seq::empty()
    }) + seq!["sandbox"@]
}

/// The arguments of `ssh` that forward a port to a sandbox.
pub fn ssh_forward_args(proxy_command: &str, forward_arg: &str, background: bool) -> (r: Vec<String>)
    ensures
        r@.map_values(|a: String| a@) == forward_arg_list(proxy_command@, forward_arg@, background),
{
    let mut args = ssh_base_args(proxy_command);
    args.push(to_owned_string("-N"));
    args.push(to_owned_string("-o"));
    args.push(to_owned_string("ExitOnForwardFailure=yes"));
    args.push(to_owned_string("-L"));
    args.push(to_owned_string(forward_arg));
    if background {
        args.push(to_owned_string("-f"));
    }
    args.push(to_owned_string("sandbox"));
    assert(args@.map_values(|a: String| a@) =~= forward_arg_list(proxy_command@, forward_arg@, background));
    args
}


// ---------------------------------------------------------------------------
// Downloads
// ---------------------------------------------------------------------------

/// `s` without its trailing slashes (`str::trim_end_matches('/')`).
pub open spec fn without_trailing_slashes(s: Seq<char>) -> Seq<char>
    decreases s.len(),
{
    if s.len() > 0 && s.last() == '/' {
        without_trailing_slashes(s.drop_last())
    } else {
        s
    }
}

/// What a download from `sandbox_path` archives: the path without trailing
/// slashes (archived whole when it is a directory), else its parent
/// directory (`/` for a top-level entry, `.` for a bare name) and its last
/// component.
pub open spec fn download_parts(sandbox_path: Seq<char>) -> (Seq<char>, Seq<char>, Seq<char>) {
    let clean = without_trailing_slashes(sandbox_path);
    match rfind(clean, '/') {
        Some(pos) => (clean, if pos == 0 {
            "/"@
        } else {
            clean.take(pos)
        }, clean.skip(pos + 1)),
        None => (clean, "."@, clean),
    }
}

/// Split the sandbox path of a download into the path to archive, and the
/// parent directory and name to archive instead when it is a single file.
pub fn download_parts_of(sandbox_path: &str) -> (r: (String, String, String))
    ensures
        (r.0@, r.1@, r.2@) == download_parts(sandbox_path@),
{
    let v = chars_of(sandbox_path);
    let mut n: usize = v.len();
    assert(v@.take(n as int) =~= v@);
    while n > 0 && v[n - 1] == '/'
        invariant
            n <= v@.len(),
            without_trailing_slashes(v@) == without_trailing_slashes(v@.take(n as int)),
        decreases n,
    {
        assert(v@.take(n as int).drop_last() =~= v@.take(n - 1));
        n = n - 1;
    }
    let clean = subvec(&v, 0, n);
    assert(clean@ =~= v@.take(n as int));
    proof {
        if n > 0 {
            assert(without_trailing_slashes(clean@) == clean@);
        } else {
            assert(clean@.len() == 0);
        }
    }
    match rfind_exec(&clean, '/') {
        Some(pos) => {
            proof {
                crate::text::lemma_rfind(clean@, '/');
            }
            let parent = if pos == 0 {
                to_owned_string("/")
            } else {
                let p = subvec(&clean, 0, pos);
                assert(p@ =~= clean@.take(pos as int));
                string_from_chars(&p)
            };
            let name = subvec(&clean, pos + 1, clean.len());
            assert(name@ =~= clean@.skip(pos + 1));
            (string_from_chars(&clean), parent, string_from_chars(&name))
        },
        None => (string_from_chars(&clean), to_owned_string("."), string_from_chars(&clean)),
    }
}


/// The error of an rsync upload that exited unsuccessfully with `exit_code`
/// (1 when the process reports none), or `None` for exit code 24 (files
/// vanished during the transfer), which counts as success.
pub fn rsync_failure(sandbox: &str, exit_code: Option<i32>, stderr: &str) -> (r: Option<String>)
    ensures
        ({
            let code = match exit_code {
                Some(c) => c,
                None => 1i32,
            };
            &&& code == 24 ==> r is None
            &&& code != 24 ==> (r matches Some(m) && m@ == "rsync upload to sandbox '"@ + sandbox@
                + "' failed (exit code "@ + i64_text(code as i64) + ").\nstderr: "@ + stderr@
                + "\nIf the sandbox image lacks rsync, retry without --rsync to use tar upload."@)
        }),
{
    let code: i32 = match exit_code {
        Some(c) => c,
        None => 1,
    };
    if code == 24 {
        return None;
    }
    let mut m = to_owned_string("rsync upload to sandbox '");
    push_str_chars(&mut m, sandbox);
    push_str_chars(&mut m, "' failed (exit code ");
    push_i64(&mut m, code as i64);
    push_str_chars(&mut m, ").\nstderr: ");
    push_str_chars(&mut m, stderr);
    push_str_chars(&mut m, "\nIf the sandbox image lacks rsync, retry without --rsync to use tar upload.");
    Some(m)
}


/// The remote shell command that archives a download to stdout: a
/// directory's contents, or else the single file from its parent directory.
pub open spec fn download_tar_text(sandbox_path: Seq<char>) -> Seq<char> {
    let (path, parent, name) = download_parts(sandbox_path);
    "if [ -d "@ + shell_quoted(path) + " ]; then tar cf - -C "@ + shell_quoted(path)
        + " .; else tar cf - -C "@ + shell_quoted(parent) + " "@ + shell_quoted(name) + "; fi"@
}

/// Build the remote archive command of a download.
pub fn download_tar_command(sandbox_path: &str) -> (r: String)
    ensures
        r@ == download_tar_text(sandbox_path@),
{
    let (path, parent, name) = download_parts_of(sandbox_path);
    let qp = shell_quote(path.as_str());
    let mut r = to_owned_string("if [ -d ");
    push_str_chars(&mut r, qp.as_str());
    push_str_chars(&mut r, " ]; then tar cf - -C ");
    push_str_chars(&mut r, qp.as_str());
    push_str_chars(&mut r, " .; else tar cf - -C ");
    push_str_chars(&mut r, shell_quote(parent.as_str()).as_str());
    push_str_chars(&mut r, " ");
    push_str_chars(&mut r, shell_quote(name.as_str()).as_str());
    push_str_chars(&mut r, "; fi");
    r
}

} // verus!

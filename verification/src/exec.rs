//! Running a command in a sandbox over SSH (`darkshell sandbox exec`):
//! connections are shared through an SSH control socket, the remote
//! command is shell-quoted word by word, and a run that outlives its timeout
//! ends with the conventional exit code of `timeout(1)`.

use vstd::prelude::*;
use std::time::Duration;
use crate::registry::{join, join_path};
use crate::text::{push_str_chars, shell_quote, shell_quoted, to_owned_string};
use crate::transfer::{ssh_base_args, ssh_base_arg_list};

verus! {

/// Seconds a command may run before it is stopped.
pub const EXEC_DEFAULT_TIMEOUT_SECS: u64 = 300;

/// The exit code reported for a command stopped by the timeout.
pub const EXIT_CODE_TIMEOUT: i32 = 124;

/// How long an idle shared SSH connection stays open, in seconds.
pub const CONTROL_PERSIST_SECS: u64 = 600;

/// What a command run in a sandbox produced.
#[derive(Debug)]
pub struct ExecResult {
    /// Everything the command wrote to stdout.
    pub stdout: Vec<u8>,
    /// Everything the command wrote to stderr.
    pub stderr: Vec<u8>,
    /// Its exit code ([`EXIT_CODE_TIMEOUT`] when it timed out).
    pub exit_code: i32,
    /// How long it ran.
    pub duration: Duration,
}

/// The directory of the SSH control sockets under a config directory.
pub open spec fn controlsocket_dir_of(config_dir: Seq<char>) -> Seq<char> {
    join_path(join_path(config_dir, "darkshell"@), "ssh"@)
}

/// The directory of the SSH control sockets: `<config_dir>/darkshell/ssh`.
pub fn controlsocket_dir(config_dir: &str) -> (r: String)
    ensures
        r@ == controlsocket_dir_of(config_dir@),
{
    let d = join(config_dir, "darkshell");
    join(d.as_str(), "ssh")
}

/// The control socket path, with the `%r@%h:%p` tokens that SSH expands to
/// the remote user, host and port.
pub fn controlsocket_path(config_dir: &str) -> (r: String)
    ensures
        r@ == join_path(controlsocket_dir_of(config_dir@), "ctrl-%r@%h:%p"@),
{
    let d = controlsocket_dir(config_dir);
    join(d.as_str(), "ctrl-%r@%h:%p")
}

/// The remote command line: each word single-quoted, joined by spaces.
pub open spec fn quoted_command_line(words: Seq<String>) -> Seq<char>
    decreases words.len(),
{
    if words.len() == 0 {
        Seq::empty()
    } else if words.len() == 1 {
        shell_quoted(words[0]@)
    } else {
        quoted_command_line(words.drop_last()) + " "@ + shell_quoted(words.last()@)
    }
}

/// The command line that runs `words` remotely, each word quoted so that
/// the remote shell sees it as one argument.
pub fn remote_command_line(words: &Vec<String>) -> (r: String)
    ensures
        r@ == quoted_command_line(words@),
{
    let mut r = String::new();
    let mut i: usize = 0;
    while i < words.len()
        invariant
            i <= words@.len(),
            r@ == quoted_command_line(words@.take(i as int)),
        decreases words.len() - i,
    {
        proof {
            let t = words@.take(i + 1);
            assert(t.drop_last() =~= words@.take(i as int));
            assert(t.last() == words@[i as int]);
            if i == 0 {
                assert(words@.take(0) =~= Seq::<String>::empty());
            }
        }
        if i > 0 {
            push_str_chars(&mut r, " ");
        }
        let q = shell_quote(words[i].as_str());
        push_str_chars(&mut r, q.as_str());
        proof {
            if i == 0 {
                assert(r@ =~= quoted_command_line(words@.take(1)));
            }
        }
        i = i + 1;
    }
    assert(words@.take(i as int) =~= words@);
    r
}

/// The arguments of `ssh` that run a command in a sandbox over a shared
/// connection: the proxy options, the control socket options, no terminal,
/// then the quoted command line.
pub open spec fn exec_ssh_arg_list(proxy_command: Seq<char>, words: Seq<String>, control_path: Seq<char>) -> Seq<
    Seq<char>,
> {
    ssh_base_arg_list(proxy_command) + seq![
        "-o"@,
        "ControlMaster=auto"@,
        "-o"@,
        "ControlPersist=600"@,
        "-o"@,
        "ControlPath="@ + control_path,
        "-T"@,
        "-o"@,
        "RequestTTY=no"@,
        "sandbox"@,
        quoted_command_line(words),
    ]
}

/// A program to run and its arguments.
#[derive(Debug)]
pub struct Invocation {
    /// The program.
    pub program: String,
    /// Its arguments, in order.
    pub args: Vec<String>,
}

/// The `ssh` invocation for `darkshell sandbox exec`.
pub fn build_exec_ssh_command(proxy_command: &str, command: &Vec<String>, control_path: &str) -> (r:
    Invocation)
    ensures
        r.program@ == "ssh"@,
        r.args@.map_values(|a: String| a@) == exec_ssh_arg_list(proxy_command@, command@, control_path@),
{
    Invocation {
        program: to_owned_string("ssh"),
        args: build_exec_ssh_args(proxy_command, command, control_path),
    }
}

/// The arguments of `ssh` for `darkshell sandbox exec`.
pub fn build_exec_ssh_args(proxy_command: &str, command: &Vec<String>, control_path: &str) -> (r: Vec<
    String,
>)
    ensures
        r@.map_values(|a: String| a@) == exec_ssh_arg_list(proxy_command@, command@, control_path@),
{
    let mut args = ssh_base_args(proxy_command);
    args.push(to_owned_string("-o"));
    args.push(to_owned_string("ControlMaster=auto"));
    args.push(to_owned_string("-o"));
    args.push(to_owned_string("ControlPersist=600"));
    args.push(to_owned_string("-o"));
    let mut cp = to_owned_string("ControlPath=");
    push_str_chars(&mut cp, control_path);
    args.push(cp);
    args.push(to_owned_string("-T"));
    args.push(to_owned_string("-o"));
    args.push(to_owned_string("RequestTTY=no"));
    args.push(to_owned_string("sandbox"));
    args.push(remote_command_line(command));
    assert(args@.map_values(|a: String| a@) =~= exec_ssh_arg_list(proxy_command@, command@, control_path@));
    args
}

} // verus!

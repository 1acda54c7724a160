//! In-sandbox MCP servers: the command that starts one inside the sandbox,
//! the rule that keeps credentials out of it, and how a missing server
//! binary is recognized.

use vstd::prelude::*;
use crate::text::{
    chars_of, contains_seq, push_str_chars, shell_quote, shell_quoted, to_owned_string, vec_contains,
};

verus! {

/// Why an in-sandbox MCP server cannot be set up or started.
#[derive(Debug)]
pub enum InSandboxError {
    /// The server command is empty.
    EmptyCommand,
    /// An environment variable that looks like a credential was requested.
    CredentialEnv { var: String },
    /// The server binary does not exist in the sandbox.
    BinaryNotFound { sandbox: String, command: String },
}

/// The message of an in-sandbox error.
pub open spec fn in_sandbox_error_text(e: InSandboxError) -> Seq<char> {
    match e {
        InSandboxError::EmptyCommand => "in-sandbox MCP server command is empty"@,
        InSandboxError::CredentialEnv { var } => "environment variable '"@ + var@
            + "' looks like a credential; credentials are not injected into in-sandbox MCP servers. Use `transport: bridge` to run the server on the host with injected credentials."@,
        InSandboxError::BinaryNotFound { sandbox, command } => "MCP server command '"@ + command@
            + "' not found in sandbox '"@ + sandbox@
            + "'. Install it in the container image (update the Dockerfile) or fix the command path."@,
    }
}

impl InSandboxError {
    /// The error's message.
    pub fn to_display_string(&self) -> (r: String)
        ensures
            r@ == in_sandbox_error_text(*self),
    {
        match self {
            InSandboxError::EmptyCommand => to_owned_string("in-sandbox MCP server command is empty"),
            InSandboxError::CredentialEnv { var } => {
                let mut s = to_owned_string("environment variable '");
                push_str_chars(&mut s, var.as_str());
                push_str_chars(
                    &mut s,
                    "' looks like a credential; credentials are not injected into in-sandbox MCP servers. Use `transport: bridge` to run the server on the host with injected credentials.",
                );
                s
            },
            InSandboxError::BinaryNotFound { sandbox, command } => {
                let mut s = to_owned_string("MCP server command '");
                push_str_chars(&mut s, command.as_str());
                push_str_chars(&mut s, "' not found in sandbox '");
                push_str_chars(&mut s, sandbox.as_str());
                push_str_chars(
                    &mut s,
                    "'. Install it in the container image (update the Dockerfile) or fix the command path.",
                );
                s
            },
        }
    }
}

// ---------------------------------------------------------------------------
// The command
// ---------------------------------------------------------------------------

/// The script `sh -c` runs for a server command: the command, after a `cd`
/// into the working directory when there is one.
pub open spec fn in_sandbox_script(command: Seq<char>, working_dir: Option<Seq<char>>) -> Seq<char> {
    match working_dir {
        Some(d) => "cd "@ + shell_quoted(d) + " && "@ + command,
        None => command,
    }
}

/// The argument vector that starts an in-sandbox MCP server:
/// `sh -c <script>`. An empty command is refused.
pub fn build_in_sandbox_mcp_command(command: &str, working_dir: Option<&str>) -> (r: Result<
    Vec<String>,
    InSandboxError,
>)
    ensures
        command@.len() == 0 <==> r matches Err(InSandboxError::EmptyCommand),
        r matches Ok(v) ==> v@.len() == 3 && v@[0]@ == "sh"@ && v@[1]@ == "-c"@ && v@[2]@
            == in_sandbox_script(
            command@,
            match working_dir {
                Some(d) => Some(d@),
                None => None,
            },
        ),
{
    if chars_of(command).len() == 0 {
        return Err(InSandboxError::EmptyCommand);
    }
    let script = match working_dir {
        Some(d) => {
            let mut s = to_owned_string("cd ");
            let q = shell_quote(d);
            push_str_chars(&mut s, q.as_str());
            push_str_chars(&mut s, " && ");
            push_str_chars(&mut s, command);
            s
        },
        None => to_owned_string(command),
    };
    let mut v: Vec<String> = Vec::new();
    v.push(to_owned_string("sh"));
    v.push(to_owned_string("-c"));
    v.push(script);
    Ok(v)
}

// ---------------------------------------------------------------------------
// Credentials
// ---------------------------------------------------------------------------

/// ASCII letters in upper case, everything else as it is.
pub open spec fn ascii_upper(s: Seq<char>) -> Seq<char> {
    s.map_values(|c: char| if 'a' <= c && c <= 'z' {
        ((c as u32) - 32) as char
    } else {
        c
    })
}

/// The name of an environment variable looks like a credential: in upper
/// case it contains `KEY`, `TOKEN`, `SECRET`, `PASSWORD` or `CREDENTIAL`.
pub open spec fn credential_like(name: Seq<char>) -> bool {
    let u = ascii_upper(name);
    contains_seq(u, "KEY"@) || contains_seq(u, "TOKEN"@) || contains_seq(u, "SECRET"@)
        || contains_seq(u, "PASSWORD"@) || contains_seq(u, "CREDENTIAL"@)
}

fn upper_chars(s: &str) -> (r: Vec<char>)
    ensures
        r@ == ascii_upper(s@),
{
    let v = chars_of(s);
    let mut r: Vec<char> = Vec::new();
    let mut i: usize = 0;
    while i < v.len()
        invariant
            i <= v@.len(),
            v@ == s@,
            r@ == ascii_upper(v@.take(i as int)),
        decreases v.len() - i,
    {
        let c = v[i];
        let u = if 'a' <= c && c <= 'z' {
            let code: u32 = (c as u32) - 32;
            proof {
                vstd::utf8::char_is_scalar(c);
            }
            char_from_ascii(code)
        } else {
            c
        };
        r.push(u);
        assert(r@ =~= ascii_upper(v@.take(i + 1)));
        i = i + 1;
    }
    assert(v@.take(i as int) =~= v@);
    r
}

fn char_from_ascii(code: u32) -> (c: char)
    requires
        65 <= code <= 90,
    ensures
        c == code as char,
{
    let k: u8 = code as u8;
    k as char
}

/// Whether the name of an environment variable looks like a credential.
pub fn looks_like_credential(name: &str) -> (r: bool)
    ensures
        r == credential_like(name@),
{
    let u = upper_chars(name);
    vec_contains(&u, &chars_of("KEY")) || vec_contains(&u, &chars_of("TOKEN")) || vec_contains(
        &u,
        &chars_of("SECRET"),
    ) || vec_contains(&u, &chars_of("PASSWORD")) || vec_contains(&u, &chars_of("CREDENTIAL"))
}

/// Refuse environment variables that look like credentials for an
/// in-sandbox server: the first one found is named in the error.
pub fn reject_credential_env_vars(vars: &Vec<String>) -> (r: Result<(), InSandboxError>)
    ensures
        r is Ok <==> forall|i: int| 0 <= i < vars@.len() ==> !credential_like(#[trigger] vars@[i]@),
        r matches Err(e) ==> (e matches InSandboxError::CredentialEnv { var } && exists|i: int|
            0 <= i < vars@.len() && #[trigger] vars@[i]@ == var@ && credential_like(var@)
                && forall|j: int| 0 <= j < i ==> !credential_like(#[trigger] vars@[j]@)),
{
    let mut i: usize = 0;
    while i < vars.len()
        invariant
            i <= vars@.len(),
            forall|j: int| 0 <= j < i ==> !credential_like(#[trigger] vars@[j]@),
        decreases vars.len() - i,
    {
        if looks_like_credential(vars[i].as_str()) {
            return Err(InSandboxError::CredentialEnv { var: vars[i].clone() });
        }
        i = i + 1;
    }
    Ok(())
}

// ---------------------------------------------------------------------------
// Missing binaries
// ---------------------------------------------------------------------------

/// `p` occurs somewhere in the bytes `s`.
pub open spec fn bytes_contain(s: Seq<u8>, p: Seq<u8>) -> bool {
    exists|i: int| 0 <= i && i + p.len() <= s.len() && #[trigger] s.subrange(i, i + p.len()) == p
}

fn bytes_contain_exec(s: &[u8], p: &[u8]) -> (r: bool)
    ensures
        r == bytes_contain(s@, p@),
{
    if p.len() > s.len() {
        return false;
    }
    let n = s.len();
    let last = n - p.len();
    let mut i: usize = 0;
    while i <= last
        invariant
            n == s@.len(),
            last == s@.len() - p@.len(),
            p@.len() <= s@.len(),
            forall|k: int| 0 <= k < i ==> #[trigger] s@.subrange(k, k + p@.len()) != p@,
        decreases last + 1 - i,
    {
        let mut j: usize = 0;
        let mut same = true;
        while j < p.len()
            invariant
                j <= p@.len(),
                n == s@.len(),
                i <= last,
                last == s@.len() - p@.len(),
                p@.len() <= s@.len(),
                same <==> forall|t: int| 0 <= t < j ==> s@[i + t] == p@[t],
            decreases p.len() - j,
        {
            assert(i + j < s@.len());
            if s[i + j] != p[j] {
                same = false;
            }
            j = j + 1;
        }
        if same {
            assert(s@.subrange(i as int, i + p@.len()) =~= p@);
            return true;
        }
        proof {
            if s@.subrange(i as int, i + p@.len()) == p@ {
                assert forall|t: int| 0 <= t < p@.len() implies s@[i + t] == p@[t] by {
                    assert(s@.subrange(i as int, i + p@.len())[t] == s@[i + t]);
                }
            }
        }
        if i == last {
            proof {
                assert forall|k: int| 0 <= k && k + p@.len() <= s@.len() implies #[trigger] s@.subrange(
                    k,
                    k + p@.len(),
                ) != p@ by {
                    assert(k <= last);
                }
            }
            return false;
        }
        i = i + 1;
    }
    false
}

/// A server start that failed with `exit_code` and `stderr` failed because
/// its binary is missing: the shell's "command not found" code (127), or
/// `No such file` in its error output.
pub open spec fn binary_missing(exit_code: i32, stderr: Seq<u8>) -> bool {
    exit_code == 127 || bytes_contain(stderr, seq![78u8, 111u8, 32u8, 115u8, 117u8, 99u8, 104u8, 32u8, 102u8, 105u8, 108u8, 101u8])
}

/// Recognize a missing server binary from how its start failed.
pub fn check_in_sandbox_binary_not_found(sandbox: &str, command: &str, exit_code: i32, stderr: &[u8]) -> (r:
    Result<(), InSandboxError>)
    ensures
        !binary_missing(exit_code, stderr@) ==> r is Ok,
        binary_missing(exit_code, stderr@) ==> (r matches Err(InSandboxError::BinaryNotFound { sandbox: s, command: c })
            && s@ == sandbox@ && c@ == command@),
{
    let pattern: [u8; 12] = [78u8, 111u8, 32u8, 115u8, 117u8, 99u8, 104u8, 32u8, 102u8, 105u8, 108u8, 101u8];
    let found = bytes_contain_exec(stderr, pattern.as_slice());
    proof {
        assert(pattern@ =~= seq![78u8, 111u8, 32u8, 115u8, 117u8, 99u8, 104u8, 32u8, 102u8, 105u8, 108u8, 101u8]);
    }
    if exit_code == 127 || found {
        return Err(
            InSandboxError::BinaryNotFound {
                sandbox: to_owned_string(sandbox),
                command: to_owned_string(command),
            },
        );
    }
    Ok(())
}

} // verus!

//! MCP bridge registrations: their contents, where their files live, and
//! the names that may appear in those file names.
//!
//! Each running bridge has a registration file at
//! `<config>/darkshell/mcp/<sandbox>-<server>.yaml`. Sandbox and server names
//! are restricted to `[a-z0-9-]`, so a name can never lead outside the
//! registry directory.

use vstd::prelude::*;
use crate::bridge_error::BridgeError;
use crate::text::{
    concat3, lemma_lex_le_antisymmetric, lemma_lex_le_total, lemma_lex_le_transitive, lex_le,
    push_char, push_str_chars, str_eq, str_le, to_owned_string,
};
use vstd::multiset::Multiset;

verus! {

// ---------------------------------------------------------------------------
// Names
// ---------------------------------------------------------------------------

/// A character allowed in a sandbox or server name: `[a-z0-9-]`.
pub open spec fn name_char_ok(c: char) -> bool {
    ('a' <= c && c <= 'z') || ('0' <= c && c <= '9') || c == '-'
}

/// A valid sandbox or server name: non-empty, only `[a-z0-9-]`.
pub open spec fn name_ok(s: Seq<char>) -> bool {
    s.len() > 0 && forall|i: int| 0 <= i < s.len() ==> name_char_ok(#[trigger] s[i])
}

/// Why a name is refused, if it is.
pub open spec fn name_error(s: Seq<char>) -> Option<Seq<char>> {
    if s.len() == 0 {
        Some("name must not be empty"@)
    } else if !name_ok(s) {
        Some(
            "name '"@ + s
                + "' contains invalid characters. Only lowercase letters, digits, and hyphens [a-z0-9-] are allowed"@,
        )
    } else {
        None
    }
}

/// Validate that a sandbox or server name contains only safe characters.
///
/// Allowed: lowercase letters, digits, and hyphens (`[a-z0-9-]`). Anything
/// else (`/`, `..`, NUL, uppercase, underscores, spaces, …) is refused, as is
/// the empty name, with a `RegistrationIo` error that says why.
pub fn validate_name(name: &str) -> (r: Result<(), BridgeError>)
    ensures
        r is Ok <==> name_ok(name@),
        r matches Err(e) ==> (e matches BridgeError::RegistrationIo { reason } && name_error(
            name@,
        ) == Some(reason@)),
{
    let chars = crate::text::chars_of(name);
    if chars.len() == 0 {
        return Err(BridgeError::RegistrationIo { reason: to_owned_string("name must not be empty") });
    }
    let mut i: usize = 0;
    while i < chars.len()
        invariant
            i <= chars@.len(),
            chars@ == name@,
            forall|k: int| 0 <= k < i ==> name_char_ok(#[trigger] chars@[k]),
        decreases chars.len() - i,
    {
        let c = chars[i];
        if !(('a' <= c && c <= 'z') || ('0' <= c && c <= '9') || c == '-') {
            let reason = concat3(
                "name '",
                name,
                "' contains invalid characters. Only lowercase letters, digits, and hyphens [a-z0-9-] are allowed",
            );
            return Err(BridgeError::RegistrationIo { reason });
        }
        i = i + 1;
    }
    Ok(())
}

// ---------------------------------------------------------------------------
// Paths
// ---------------------------------------------------------------------------

/// `base` joined with the relative component `comp`, as `Path::join` does: a
/// `/` goes between them unless `base` is empty or already ends with one.
pub open spec fn join_path(base: Seq<char>, comp: Seq<char>) -> Seq<char> {
    if base.len() == 0 || base.last() == '/' {
        base + comp
    } else {
        base + "/"@ + comp
    }
}

/// `base` joined with the relative component `comp`.
pub fn join(base: &str, comp: &str) -> (r: String)
    ensures
        r@ == join_path(base@, comp@),
{
    let chars = crate::text::chars_of(base);
    let mut r = to_owned_string(base);
    if chars.len() > 0 && chars[chars.len() - 1] != '/' {
        push_char(&mut r, '/');
        proof {
            reveal_strlit("/");
        }
    }
    push_str_chars(&mut r, comp);
    r
}

/// The registry directory under a config directory.
pub open spec fn registry_dir_of(config_dir: Seq<char>) -> Seq<char> {
    join_path(join_path(config_dir, "darkshell"@), "mcp"@)
}

/// Base directory for MCP registration files: `<config_dir>/darkshell/mcp`.
pub fn registry_dir(config_dir: &str) -> (r: String)
    ensures
        r@ == registry_dir_of(config_dir@),
{
    let d = join(config_dir, "darkshell");
    join(d.as_str(), "mcp")
}

/// The default config directory under a home directory: `<home>/.config`.
///
/// `home` is the value of the `HOME` environment variable, if it is set.
pub fn default_config_dir(home: Option<&str>) -> (r: Result<String, BridgeError>)
    ensures
        match home {
            Some(h) => r matches Ok(d) && d@ == join_path(h@, ".config"@),
            None => r matches Err(BridgeError::RegistrationIo { reason }) && reason@
                == "HOME environment variable not set"@,
        },
{
    match home {
        Some(h) => Ok(join(h, ".config")),
        None => Err(
            BridgeError::RegistrationIo {
                reason: to_owned_string("HOME environment variable not set"),
            },
        ),
    }
}

/// The registration file of a sandbox and server under a config directory.
pub open spec fn registration_file_of(config_dir: Seq<char>, sandbox: Seq<char>, server: Seq<char>) -> Seq<
    char,
> {
    join_path(registry_dir_of(config_dir), registration_file_name(sandbox, server))
}

/// Registration file path for a sandbox and server:
/// `<config_dir>/darkshell/mcp/<sandbox>-<server>.yaml`.
///
/// Both names are validated first (the sandbox, then the server); the first
/// invalid one gives its error.
pub fn registration_path(config_dir: &str, sandbox: &str, server: &str) -> (r: Result<
    String,
    BridgeError,
>)
    ensures
        r is Ok <==> name_ok(sandbox@) && name_ok(server@),
        r matches Ok(p) ==> p@ == registration_file_of(config_dir@, sandbox@, server@),
        r matches Err(e) ==> (e matches BridgeError::RegistrationIo { reason } && Some(reason@)
            == if !name_ok(sandbox@) {
            name_error(sandbox@)
        } else {
            name_error(server@)
        }),
{
    if let Err(e) = validate_name(sandbox) {
        return Err(e);
    }
    if let Err(e) = validate_name(server) {
        return Err(e);
    }
    let dir = registry_dir(config_dir);
    let mut file = concat3(sandbox, "-", server);
    push_str_chars(&mut file, ".yaml");
    Ok(join(dir.as_str(), file.as_str()))
}


/// The file name of a registration.
pub open spec fn registration_file_name(sandbox: Seq<char>, server: Seq<char>) -> Seq<char> {
    sandbox + "-"@ + server + ".yaml"@
}

/// With valid names, the registration file sits directly in the registry
/// directory: its name is a single path component, with no `/` in it.
pub proof fn lemma_registration_file_in_registry(
    config_dir: Seq<char>,
    sandbox: Seq<char>,
    server: Seq<char>,
)
    requires
        name_ok(sandbox),
        name_ok(server),
    ensures
        registration_file_of(config_dir, sandbox, server) == registry_dir_of(config_dir) + "/"@
            + registration_file_name(sandbox, server),
        forall|i: int|
            0 <= i < registration_file_name(sandbox, server).len()
                ==> #[trigger] registration_file_name(sandbox, server)[i] != '/',
{
    reveal_strlit("mcp");
    reveal_strlit("-");
    reveal_strlit(".yaml");
    reveal_strlit("/");
    let d = registry_dir_of(config_dir);
    let b = join_path(config_dir, "darkshell"@);
    assert(d.last() == 'p');
    let f = registration_file_name(sandbox, server);
    assert forall|i: int| 0 <= i < f.len() implies #[trigger] f[i] != '/' by {
        if i < sandbox.len() {
            assert(f[i] == sandbox[i]);
            assert(name_char_ok(sandbox[i]));
        } else if i == sandbox.len() {
            assert(f[i] == '-');
        } else if i < sandbox.len() + 1 + server.len() {
            assert(f[i] == server[i - sandbox.len() - 1]);
            assert(name_char_ok(server[i - sandbox.len() - 1]));
        } else {
            assert(f[i] == ".yaml"@[i - sandbox.len() - 1 - server.len()]);
        }
    }
}

// ---------------------------------------------------------------------------
// Registration contents
// ---------------------------------------------------------------------------

/// Transport mode for the MCP bridge.
#[derive(Debug, Clone, Copy, PartialEq, Eq, Structural)]
#[non_exhaustive]
pub enum Transport {
    /// stdio JSON-RPC to HTTP proxy (the primary mode).
    StdioHttp,
}

/// Bridge lifecycle status.
#[derive(Debug, Clone, Copy, PartialEq, Eq, Structural)]
#[non_exhaustive]
pub enum BridgeStatus {
    /// Bridge is starting up (subprocess not yet ready).
    Starting,
    /// Bridge is running and accepting requests.
    Running,
    /// Bridge is shutting down.
    Stopping,
    /// Bridge has stopped (registration file may be stale).
    Stopped,
    /// Bridge has failed after max retries.
    Failed,
}

/// Registration file contents.
#[derive(Debug, Clone)]
pub struct BridgeRegistration {
    /// Sandbox this bridge serves.
    pub sandbox: String,
    /// MCP server name (e.g., "perplexity", "tavily").
    pub server_name: String,
    /// Transport mode.
    pub transport: Transport,
    /// Command used to start the MCP server.
    pub command: Vec<String>,
    /// Bridge daemon PID on the host.
    pub bridge_pid: u32,
    /// Port the HTTP bridge listens on.
    pub forwarded_port: u16,
    /// Current bridge status.
    pub status: BridgeStatus,
    /// Process start time in seconds since UNIX epoch, used with
    /// `bridge_pid` to detect PID reuse.
    pub process_start_time: Option<u64>,
}

/// The registrations of `regs` that belong to `sandbox`, in order.
pub open spec fn regs_of(regs: Seq<BridgeRegistration>, sandbox: Seq<char>) -> Seq<BridgeRegistration>
    decreases regs.len(),
{
    if regs.len() == 0 {
        Seq::empty()
    } else {
        let rest = regs_of(regs.drop_last(), sandbox);
        if regs.last().sandbox@ == sandbox {
            rest.push(regs.last())
        } else {
            rest
        }
    }
}

/// The server names of the registrations that belong to `sandbox`, in order.
pub open spec fn servers_of(regs: Seq<BridgeRegistration>, sandbox: Seq<char>) -> Seq<Seq<char>> {
    regs_of(regs, sandbox).map_values(|g: BridgeRegistration| g.server_name@)
}

/// Two registrations record the same thing.
pub open spec fn same_registration(a: BridgeRegistration, b: BridgeRegistration) -> bool {
    &&& a.sandbox == b.sandbox
    &&& a.server_name == b.server_name
    &&& a.transport == b.transport
    &&& a.command@ == b.command@
    &&& a.bridge_pid == b.bridge_pid
    &&& a.forwarded_port == b.forwarded_port
    &&& a.status == b.status
    &&& a.process_start_time == b.process_start_time
}

/// The registrations of `regs` that belong to `sandbox`, in order: those
/// that removing the sandbox's registrations removes.
pub fn sandbox_registrations(regs: &Vec<BridgeRegistration>, sandbox: &str) -> (r: Vec<
    BridgeRegistration,
>)
    ensures
        r@.len() == regs_of(regs@, sandbox@).len(),
        forall|i: int| 0 <= i < r@.len() ==> same_registration(#[trigger] r@[i], regs_of(regs@, sandbox@)[i]),
{
    let mut r: Vec<BridgeRegistration> = Vec::new();
    let mut i: usize = 0;
    while i < regs.len()
        invariant
            i <= regs@.len(),
            r@.len() == regs_of(regs@.take(i as int), sandbox@).len(),
            forall|k: int|
                0 <= k < r@.len() ==> same_registration(#[trigger] r@[k], regs_of(regs@.take(i as int), sandbox@)[k]),
        decreases regs.len() - i,
    {
        proof {
            let t = regs@.take(i + 1);
            assert(t.drop_last() =~= regs@.take(i as int));
        }
        if str_eq(regs[i].sandbox.as_str(), sandbox) {
            r.push(copy_registration(&regs[i]));
        }
        i = i + 1;
    }
    assert(regs@.take(i as int) =~= regs@);
    r
}

/// The names of the servers whose registrations removing `sandbox`'s
/// registrations deletes, in listing order: the registrations of
/// `regs` (as listed) that belong to `sandbox`. The caller deletes their
/// files.
pub fn cleanup_sandbox(regs: &Vec<BridgeRegistration>, sandbox: &str) -> (r: Vec<String>)
    ensures
        r@.map_values(|n: String| n@) == servers_of(regs@, sandbox@),
{
    let mut r: Vec<String> = Vec::new();
    let mut i: usize = 0;
    while i < regs.len()
        invariant
            i <= regs@.len(),
            r@.map_values(|n: String| n@) == servers_of(regs@.take(i as int), sandbox@),
        decreases regs.len() - i,
    {
        proof {
            let t = regs@.take(i + 1);
            assert(t.drop_last() =~= regs@.take(i as int));
        }
        let ghost before = r@;
        if str_eq(regs[i].sandbox.as_str(), sandbox) {
            r.push(regs[i].server_name.clone());
            assert(r@.map_values(|n: String| n@) =~= before.map_values(|n: String| n@).push(
                regs@[i as int].server_name@,
            ));
        }
        assert(r@.map_values(|n: String| n@) =~= servers_of(regs@.take(i + 1), sandbox@));
        i = i + 1;
    }
    assert(regs@.take(i as int) =~= regs@);
    r
}

/// A copy of a registration.
pub fn copy_registration(g: &BridgeRegistration) -> (r: BridgeRegistration)
    ensures
        r.sandbox == g.sandbox,
        r.server_name == g.server_name,
        r.transport == g.transport,
        r.command@ == g.command@,
        r.bridge_pid == g.bridge_pid,
        r.forwarded_port == g.forwarded_port,
        r.status == g.status,
        r.process_start_time == g.process_start_time,
{
    BridgeRegistration {
        sandbox: g.sandbox.clone(),
        server_name: g.server_name.clone(),
        transport: g.transport,
        command: crate::text::clone_strings(&g.command),
        bridge_pid: g.bridge_pid,
        forwarded_port: g.forwarded_port,
        status: g.status,
        process_start_time: g.process_start_time,
    }
}


// ---------------------------------------------------------------------------
// Listing order
// ---------------------------------------------------------------------------

/// Registrations are listed by sandbox, then by server name.
pub open spec fn listed_before(a: BridgeRegistration, b: BridgeRegistration) -> bool {
    if a.sandbox@ == b.sandbox@ {
        lex_le(a.server_name@, b.server_name@)
    } else {
        lex_le(a.sandbox@, b.sandbox@)
    }
}

/// `regs` is in listing order.
pub open spec fn in_listing_order(regs: Seq<BridgeRegistration>) -> bool {
    forall|i: int, j: int| 0 <= i < j < regs.len() ==> listed_before(#[trigger] regs[i], #[trigger] regs[j])
}

proof fn lemma_listed_before_total(a: BridgeRegistration, b: BridgeRegistration)
    ensures
        listed_before(a, b) || listed_before(b, a),
{
    lemma_lex_le_total(a.sandbox@, b.sandbox@);
    lemma_lex_le_total(a.server_name@, b.server_name@);
}

proof fn lemma_listed_before_transitive(a: BridgeRegistration, b: BridgeRegistration, c: BridgeRegistration)
    requires
        listed_before(a, b),
        listed_before(b, c),
    ensures
        listed_before(a, c),
{
    if a.sandbox@ == b.sandbox@ {
        if b.sandbox@ == c.sandbox@ {
            lemma_lex_le_transitive(a.server_name@, b.server_name@, c.server_name@);
        }
    } else if b.sandbox@ != c.sandbox@ {
        lemma_lex_le_transitive(a.sandbox@, b.sandbox@, c.sandbox@);
        if a.sandbox@ == c.sandbox@ {
            lemma_lex_le_antisymmetric(a.sandbox@, b.sandbox@);
        }
    }
}

/// Whether `a` is listed no later than `b`.
fn listed_no_later(a: &BridgeRegistration, b: &BridgeRegistration) -> (r: bool)
    ensures
        r == listed_before(*a, *b),
{
    if str_eq(a.sandbox.as_str(), b.sandbox.as_str()) {
        str_le(a.server_name.as_str(), b.server_name.as_str())
    } else {
        str_le(a.sandbox.as_str(), b.sandbox.as_str())
    }
}

/// The registrations in listing order: by sandbox, then by server name.
/// Nothing is added or lost.
pub fn sort_registrations(regs: Vec<BridgeRegistration>) -> (r: Vec<BridgeRegistration>)
    ensures
        r@.to_multiset() == regs@.to_multiset(),
        in_listing_order(r@),
{
    broadcast use vstd::seq_lib::group_to_multiset_ensures;
    let mut rest = regs;
    let mut out: Vec<BridgeRegistration> = Vec::new();
    while rest.len() > 0
        invariant
            out@.to_multiset().add(rest@.to_multiset()) == regs@.to_multiset(),
            in_listing_order(out@),
            forall|i: int, j: int|
                0 <= i < out@.len() && 0 <= j < rest@.len() ==> listed_before(
                    #[trigger] out@[i],
                    #[trigger] rest@[j],
                ),
        decreases rest.len(),
    {
        let mut m: usize = 0;
        let mut k: usize = 1;
        proof {
            lemma_listed_before_total(rest@[0], rest@[0]);
        }
        while k < rest.len()
            invariant
                0 <= m < k <= rest@.len(),
                forall|j: int| 0 <= j < k ==> listed_before(rest@[m as int], #[trigger] rest@[j]),
            decreases rest.len() - k,
        {
            proof {
                lemma_listed_before_total(rest@[m as int], rest@[k as int]);
            }
            if !listed_no_later(&rest[m], &rest[k]) {
                proof {
                    assert forall|j: int| 0 <= j < k + 1 implies listed_before(
                        rest@[k as int],
                        #[trigger] rest@[j],
                    ) by {
                        if j < k {
                            lemma_listed_before_transitive(rest@[k as int], rest@[m as int], rest@[j]);
                        } else {
                            lemma_listed_before_total(rest@[k as int], rest@[k as int]);
                        }
                    }
                }
                m = k;
            }
            k = k + 1;
        }
        let ghost before = rest@;
        let ghost old_out = out@;
        let x = rest.remove(m);
        proof {
            before.to_multiset_ensures();
            assert(before.remove(m as int).to_multiset() == before.to_multiset().remove(before[m as int]));
            assert forall|j: int| 0 <= j < rest@.len() implies listed_before(x, #[trigger] rest@[j]) by {
                if j < m {
                    assert(rest@[j] == before[j]);
                } else {
                    assert(rest@[j] == before[j + 1]);
                }
            }
            assert forall|i: int, j: int|
                0 <= i < old_out.len() && 0 <= j < rest@.len() implies listed_before(
                    #[trigger] old_out[i],
                    #[trigger] rest@[j],
                ) by {
                if j < m {
                    assert(rest@[j] == before[j]);
                } else {
                    assert(rest@[j] == before[j + 1]);
                }
            }
        }
        out.push(x);
        proof {
            old_out.to_multiset_ensures();
            assert(out@ == old_out.push(x));
            assert(out@.to_multiset() == old_out.to_multiset().insert(x));
            assert(out@.to_multiset().add(rest@.to_multiset()) =~= regs@.to_multiset());
            assert forall|i: int, j: int| 0 <= i < j < out@.len() implies listed_before(
                #[trigger] out@[i],
                #[trigger] out@[j],
            ) by {
                if j == out@.len() - 1 {
                    assert(out@[i] == old_out[i]);
                    assert(listed_before(old_out[i], before[m as int]));
                } else {
                    assert(out@[i] == old_out[i]);
                    assert(out@[j] == old_out[j]);
                }
            }
        }
    }
    assert(rest@.to_multiset() =~= Multiset::empty());
    out
}

} // verus!

//! The decisions behind `darkshell mcp add/list/remove`: which ports to try,
//! what a registration records, what the listing shows, and what the
//! errors say.

use vstd::prelude::*;
use crate::bridge::{PORT_RANGE_END, PORT_RANGE_START};
use crate::registry::{BridgeRegistration, BridgeStatus, Transport};
use crate::text::{
    chars_of, clone_strings, decimal, push_char, push_str_chars, str_contains, to_owned_string,
    u64_to_decimal,
};
use crate::watch::joined_names;

verus! {

/// Output format for `mcp list`.
#[derive(Debug, Clone, Copy, PartialEq, Eq, Structural)]
pub enum ListFormat {
    /// A table for people.
    Human,
    /// A JSON array.
    Json,
}

// ---------------------------------------------------------------------------
// Ports
// ---------------------------------------------------------------------------

/// The ports of the bridge range not claimed by any registration, in
/// ascending order.
pub open spec fn free_ports(used: Seq<u16>) -> Seq<u16> {
    Seq::new((PORT_RANGE_END - PORT_RANGE_START + 1) as nat, |i: int| (PORT_RANGE_START + i) as u16)
        .filter(|p: u16| !used.contains(p))
}

/// The ports to try, in order, for a new bridge: the bridge range without
/// the ports that existing registrations claim.
pub fn port_candidates(used: &Vec<u16>) -> (r: Vec<u16>)
    ensures
        r@ == free_ports(used@),
{
    let ghost all = Seq::new(
        (PORT_RANGE_END - PORT_RANGE_START + 1) as nat,
        |i: int| (PORT_RANGE_START + i) as u16,
    );
    let mut r: Vec<u16> = Vec::new();
    let mut port: u16 = PORT_RANGE_START;
    assert(all.take(0) =~= Seq::<u16>::empty());
    while port <= PORT_RANGE_END
        invariant
            PORT_RANGE_START <= port <= PORT_RANGE_END + 1,
            all == Seq::new(
                (PORT_RANGE_END - PORT_RANGE_START + 1) as nat,
                |i: int| (PORT_RANGE_START + i) as u16,
            ),
            r@ == all.take(port - PORT_RANGE_START).filter(|p: u16| !used@.contains(p)),
        decreases PORT_RANGE_END + 1 - port,
    {
        let mut claimed = false;
        let mut j: usize = 0;
        while j < used.len()
            invariant
                j <= used@.len(),
                claimed <==> exists|k: int| 0 <= k < j && used@[k] == port,
            decreases used.len() - j,
        {
            if used[j] == port {
                claimed = true;
            }
            j = j + 1;
        }
        proof {
            let t = all.take(port - PORT_RANGE_START + 1);
            assert(t.drop_last() =~= all.take(port - PORT_RANGE_START));
            assert(t.last() == port);
            all.take(port - PORT_RANGE_START).lemma_filter_push(port, |p: u16| !used@.contains(p));
            assert(t == all.take(port - PORT_RANGE_START).push(port));
            if claimed {
                let k = choose|k: int| 0 <= k < used@.len() && used@[k] == port;
                assert(used@.contains(port));
            } else {
                assert(!used@.contains(port));
            }
        }
        if !claimed {
            r.push(port);
        }
        port = port + 1;
    }
    assert(all.take(all.len() as int) =~= all);
    r
}

/// The error when every port of the bridge range is claimed or busy.
pub fn no_free_port_message() -> (r: String)
    ensures
        r@ == "no available ports in range "@ + decimal(PORT_RANGE_START as nat) + "-"@ + decimal(
            PORT_RANGE_END as nat,
        ) + " for MCP bridge. Free a port with: lsof -i :<port> -sTCP:LISTEN | kill <PID>"@,
{
    let mut r = to_owned_string("no available ports in range ");
    push_str_chars(&mut r, u64_to_decimal(PORT_RANGE_START as u64).as_str());
    push_str_chars(&mut r, "-");
    push_str_chars(&mut r, u64_to_decimal(PORT_RANGE_END as u64).as_str());
    push_str_chars(&mut r, " for MCP bridge. Free a port with: lsof -i :<port> -sTCP:LISTEN | kill <PID>");
    r
}

// ---------------------------------------------------------------------------
// Registrations
// ---------------------------------------------------------------------------

/// The registration `mcp add` writes: running, started by process `pid`, on
/// `port` (zero for an in-sandbox server), with no recorded start time.
pub fn cli_registration(sandbox: &str, server_name: &str, command: &Vec<String>, pid: u32, port: u16) -> (r:
    BridgeRegistration)
    ensures
        r.sandbox@ == sandbox@,
        r.server_name@ == server_name@,
        r.transport == Transport::StdioHttp,
        r.command@ == command@,
        r.bridge_pid == pid,
        r.forwarded_port == port,
        r.status == BridgeStatus::Running,
        r.process_start_time is None,
{
    BridgeRegistration {
        sandbox: to_owned_string(sandbox),
        server_name: to_owned_string(server_name),
        transport: Transport::StdioHttp,
        command: clone_strings(command),
        bridge_pid: pid,
        forwarded_port: port,
        status: BridgeStatus::Running,
        process_start_time: None,
    }
}

/// The error for a server that is already registered with a live process.
pub open spec fn already_registered_text(server: Seq<char>, sandbox: Seq<char>, pid: u32) -> Seq<char> {
    "MCP server '"@ + server + "' already registered on sandbox '"@ + sandbox + "' (PID "@
        + decimal(pid as nat) + "). Use `darkshell mcp remove "@ + sandbox + " --name "@ + server
        + "` first."@
}

/// The error for a server that is already registered with a live process.
pub fn already_registered_message(server: &str, sandbox: &str, pid: u32) -> (r: String)
    ensures
        r@ == already_registered_text(server@, sandbox@, pid),
{
    let mut r = to_owned_string("MCP server '");
    push_str_chars(&mut r, server);
    push_str_chars(&mut r, "' already registered on sandbox '");
    push_str_chars(&mut r, sandbox);
    push_str_chars(&mut r, "' (PID ");
    push_str_chars(&mut r, u64_to_decimal(pid as u64).as_str());
    push_str_chars(&mut r, "). Use `darkshell mcp remove ");
    push_str_chars(&mut r, sandbox);
    push_str_chars(&mut r, " --name ");
    push_str_chars(&mut r, server);
    push_str_chars(&mut r, "` first.");
    r
}

/// The error of `mcp remove` for a server that is not registered, listing
/// the sandbox's servers.
pub fn not_found_message(server: &str, sandbox: &str, available: &Vec<String>) -> (r: String)
    ensures
        r@ == "MCP server '"@ + server@ + "' not found on sandbox '"@ + sandbox@ + "'. "@ + if available@.len() == 0 {
            "No MCP servers are registered for this sandbox."@
        } else {
            "Available MCP servers: "@ + joined_names(available@)
        },
{
    let mut r = to_owned_string("MCP server '");
    push_str_chars(&mut r, server);
    push_str_chars(&mut r, "' not found on sandbox '");
    push_str_chars(&mut r, sandbox);
    push_str_chars(&mut r, "'. ");
    if available.len() == 0 {
        push_str_chars(&mut r, "No MCP servers are registered for this sandbox.");
    } else {
        push_str_chars(&mut r, "Available MCP servers: ");
        let mut i: usize = 0;
        let ghost base = r@;
        while i < available.len()
            invariant
                i <= available@.len(),
                r@ == base + joined_names(available@.take(i as int)),
            decreases available.len() - i,
        {
            if i > 0 {
                push_str_chars(&mut r, ", ");
            }
            push_str_chars(&mut r, available[i].as_str());
            proof {
                let t = available@.take(i + 1);
                assert(t.drop_last() =~= available@.take(i as int));
                if i == 0 {
                    assert(available@.take(0) =~= Seq::<String>::empty());
                }
            }
            i = i + 1;
        }
        assert(available@.take(i as int) =~= available@);
    }
    r
}

// ---------------------------------------------------------------------------
// Listing
// ---------------------------------------------------------------------------

/// `s` left-aligned in a field of `width` characters.
pub open spec fn padded_right(s: Seq<char>, width: nat) -> Seq<char> {
    s + Seq::new(if s.len() < width {
        (width - s.len()) as nat
    } else {
        0
    }, |i: int| ' ')
}

fn push_padded(r: &mut String, s: &str, width: usize)
    ensures
        final(r)@ == old(r)@ + padded_right(s@, width as nat),
{
    let n = chars_of(s).len();
    push_str_chars(r, s);
    let ghost mid = r@;
    let mut k: usize = n;
    while k < width
        invariant
            n == s@.len(),
            n <= k <= width || (k == n && n >= width),
            r@ == mid + Seq::new((k - n) as nat, |i: int| ' '),
        decreases width - k,
    {
        push_char(r, ' ');
        assert(Seq::new((k + 1 - n) as nat, |i: int| ' ') =~= Seq::new((k - n) as nat, |i: int| ' ').push(' '));
        k = k + 1;
    }
    assert(r@ =~= old(r)@ + padded_right(s@, width as nat));
}

/// The table header of `mcp list`.
pub open spec fn list_header() -> Seq<char> {
    padded_right("SERVER"@, 20) + " "@ + padded_right("TRANSPORT"@, 15) + " "@ + padded_right(
        "PORT"@,
        8,
    ) + " "@ + padded_right("PID"@, 10) + " "@ + padded_right("STATUS"@, 10)
}

/// A table row of `mcp list`.
pub open spec fn list_row(r: BridgeRegistration, alive: bool) -> Seq<char> {
    padded_right(r.server_name@, 20) + " "@ + padded_right("stdio-http"@, 15) + " "@ + padded_right(
        decimal(r.forwarded_port as nat),
        8,
    ) + " "@ + padded_right(decimal(r.bridge_pid as nat), 10) + " "@ + padded_right(
        if alive {
            "running"@
        } else {
            "stopped"@
        },
        10,
    )
}

/// The lines `mcp list` prints for a sandbox's registrations, with whether
/// each bridge process is alive: a header, a rule and a row per server, or
/// one line saying there are none.
pub fn list_lines(sandbox: &str, regs: &Vec<BridgeRegistration>, alive: &Vec<bool>) -> (r: Vec<
    String,
>)
    requires
        alive@.len() == regs@.len(),
    ensures
        regs@.len() == 0 ==> r@.len() == 1 && r@[0]@ == "No MCP servers registered for sandbox '"@
            + sandbox@ + "'."@,
        regs@.len() > 0 ==> r@.len() == regs@.len() + 2 && r@[0]@ == list_header() && r@[1]@
            == Seq::new(63, |i: int| '-') && forall|i: int|
            0 <= i < regs@.len() ==> r@[i + 2]@ == list_row(#[trigger] regs@[i], alive@[i]),
{
    let mut out: Vec<String> = Vec::new();
    if regs.len() == 0 {
        let mut l = to_owned_string("No MCP servers registered for sandbox '");
        push_str_chars(&mut l, sandbox);
        push_str_chars(&mut l, "'.");
        out.push(l);
        return out;
    }
    let mut h = String::new();
    push_padded(&mut h, "SERVER", 20);
    push_str_chars(&mut h, " ");
    push_padded(&mut h, "TRANSPORT", 15);
    push_str_chars(&mut h, " ");
    push_padded(&mut h, "PORT", 8);
    push_str_chars(&mut h, " ");
    push_padded(&mut h, "PID", 10);
    push_str_chars(&mut h, " ");
    push_padded(&mut h, "STATUS", 10);
    out.push(h);
    let mut rule = String::new();
    let mut k: usize = 0;
    while k < 63
        invariant
            k <= 63,
            rule@ == Seq::new(k as nat, |i: int| '-'),
        decreases 63 - k,
    {
        push_char(&mut rule, '-');
        assert(Seq::new((k + 1) as nat, |i: int| '-') =~= Seq::new(k as nat, |i: int| '-').push('-'));
        k = k + 1;
    }
    out.push(rule);
    let mut i: usize = 0;
    while i < regs.len()
        invariant
            i <= regs@.len(),
            alive@.len() == regs@.len(),
            regs@.len() > 0,
            out@.len() == i + 2,
            out@[0]@ == list_header(),
            out@[1]@ == Seq::new(63, |i: int| '-'),
            forall|j: int| 0 <= j < i ==> out@[j + 2]@ == list_row(#[trigger] regs@[j], alive@[j]),
        decreases regs.len() - i,
    {
        let g = &regs[i];
        let mut l = String::new();
        push_padded(&mut l, g.server_name.as_str(), 20);
        push_str_chars(&mut l, " ");
        push_padded(&mut l, "stdio-http", 15);
        push_str_chars(&mut l, " ");
        let port = u64_to_decimal(g.forwarded_port as u64);
        push_padded(&mut l, port.as_str(), 8);
        push_str_chars(&mut l, " ");
        let pid = u64_to_decimal(g.bridge_pid as u64);
        push_padded(&mut l, pid.as_str(), 10);
        push_str_chars(&mut l, " ");
        if alive[i] {
            push_padded(&mut l, "running", 10);
        } else {
            push_padded(&mut l, "stopped", 10);
        }
        out.push(l);
        i = i + 1;
    }
    out
}

// ---------------------------------------------------------------------------
// Process checks
// ---------------------------------------------------------------------------

/// Whether a process name looks like an MCP bridge before it is signalled:
/// an unknown (empty) name is given the benefit of the doubt; otherwise it
/// must mention darkshell, openshell, npx, node or mcp.
pub open spec fn bridge_like(comm: Seq<char>) -> bool {
    comm.len() == 0 || crate::text::contains_seq(comm, "darkshell"@) || crate::text::contains_seq(
        comm,
        "openshell"@,
    ) || crate::text::contains_seq(comm, "npx"@) || crate::text::contains_seq(comm, "node"@)
        || crate::text::contains_seq(comm, "mcp"@)
}

/// Whether a process name (as `ps` reports it, trimmed) looks like an MCP
/// bridge.
pub fn looks_like_bridge(comm: &str) -> (r: bool)
    ensures
        r == bridge_like(comm@),
{
    if chars_of(comm).len() == 0 {
        return true;
    }
    str_contains(comm, "darkshell") || str_contains(comm, "openshell") || str_contains(comm, "npx")
        || str_contains(comm, "node") || str_contains(comm, "mcp")
}

/// The summary `sandbox delete` prints after removing a sandbox's MCP
/// registrations.
pub fn cleanup_summary(removed: usize, sandbox: &str) -> (r: String)
    ensures
        r@ == "\u{2713} Cleaned up "@ + decimal(removed as nat) + " MCP server(s) for sandbox '"@
            + sandbox@ + "'"@,
{
    let mut r = to_owned_string("\u{2713} Cleaned up ");
    push_str_chars(&mut r, u64_to_decimal(removed as u64).as_str());
    push_str_chars(&mut r, " MCP server(s) for sandbox '");
    push_str_chars(&mut r, sandbox);
    push_str_chars(&mut r, "'");
    r
}

} // verus!

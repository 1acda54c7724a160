//! Log-line-to-event parser.
//!
//! Gateway log lines and proxy decision logs become structured events. The
//! parser is lenient: an unrecognized line is simply not an event, and a line
//! holding undecodable bytes becomes a watch-meta parse-error event.
//!
//! Recognized lines (after trimming):
//! - `policy: <action> [<endpoint>] -> <result> [rule: <rule>]`
//! - `network: <method> <host>:<port> <result words…>`
//! - `exec: <command> [exit=<code>] [<duration>ms]`
//! - `file: <operation> <path> [by <process>]`
//! - `lifecycle: <phase> [from <previous phase>]`

use vstd::prelude::*;
use crate::event::{
    CommandEvent, EventPayload, FileEvent, LifecycleEvent, NetworkEvent, PolicyEvent, WatchEvent,
    WatchMetaEvent,
};
use crate::numparse::{all_digits, digits_value, parse_u16, parse_u64, parse_unsigned};
use crate::ssh_config::words;
use crate::text::{
    chars_of, copy_chars, decimal, is_ws, is_ws_exec, occurs_at, occurs_at_exec, push_str_chars,
    string_from_chars, subvec, trim, trim_chars, u64_to_decimal, vec_has_char,
};

verus! {

// ---------------------------------------------------------------------------
// Text helpers
// ---------------------------------------------------------------------------

/// The first position at or after `i` where `p` occurs in `s`.
pub open spec fn occurrence_from(s: Seq<char>, p: Seq<char>, i: int) -> Option<int>
    decreases s.len() + 1 - i,
{
    if i < 0 || i + p.len() > s.len() {
        None
    } else if occurs_at(s, p, i) {
        Some(i)
    } else {
        occurrence_from(s, p, i + 1)
    }
}

/// The first position where `p` occurs in `s` (`str::find`).
pub open spec fn first_occurrence(s: Seq<char>, p: Seq<char>) -> Option<int> {
    occurrence_from(s, p, 0)
}

/// The last position at or before `i` where `p` occurs in `s`.
pub open spec fn occurrence_upto(s: Seq<char>, p: Seq<char>, i: int) -> Option<int>
    decreases i + 1,
{
    if i < 0 {
        None
    } else if occurs_at(s, p, i) {
        Some(i)
    } else {
        occurrence_upto(s, p, i - 1)
    }
}

/// The last position where `p` occurs in `s` (`str::rfind`).
pub open spec fn last_occurrence(s: Seq<char>, p: Seq<char>) -> Option<int> {
    occurrence_upto(s, p, s.len() - p.len())
}

proof fn lemma_occurrence_from(s: Seq<char>, p: Seq<char>, j: int)
    ensures
        occurrence_from(s, p, j) matches Some(i) ==> j <= i && occurs_at(s, p, i),
    decreases s.len() + 1 - j,
{
    if !(j < 0 || j + p.len() > s.len()) && !occurs_at(s, p, j) {
        lemma_occurrence_from(s, p, j + 1);
    }
}

fn find_pattern(v: &Vec<char>, p: &Vec<char>) -> (r: Option<usize>)
    ensures
        match r {
            Some(i) => first_occurrence(v@, p@) == Some(i as int),
            None => first_occurrence(v@, p@) is None,
        },
{
    let mut i: usize = 0;
    while i < v.len()
        invariant
            i <= v@.len(),
            first_occurrence(v@, p@) == occurrence_from(v@, p@, i as int),
        decreases v.len() - i,
    {
        if occurs_at_exec(v, p, i) {
            return Some(i);
        }
        i = i + 1;
    }
    if occurs_at_exec(v, p, i) {
        Some(i)
    } else {
        proof {
            assert(occurrence_from(v@, p@, i + 1) is None);
        }
        None
    }
}

fn rfind_pattern(v: &Vec<char>, p: &Vec<char>) -> (r: Option<usize>)
    ensures
        match r {
            Some(i) => last_occurrence(v@, p@) == Some(i as int),
            None => last_occurrence(v@, p@) is None,
        },
{
    if p.len() > v.len() {
        return None;
    }
    let mut i: usize = v.len() - p.len();
    loop
        invariant
            i <= v@.len() - p@.len(),
            p@.len() <= v@.len(),
            last_occurrence(v@, p@) == occurrence_upto(v@, p@, i as int),
        decreases i,
    {
        if occurs_at_exec(v, p, i) {
            return Some(i);
        }
        if i == 0 {
            return None;
        }
        i = i - 1;
    }
}

/// `s` without the prefix `p`, if it starts with it.
pub open spec fn strip_prefix(s: Seq<char>, p: Seq<char>) -> Option<Seq<char>> {
    if p.is_prefix_of(s) {
        Some(s.skip(p.len() as int))
    } else {
        None
    }
}

fn strip_prefix_exec(v: &Vec<char>, p: &str) -> (r: Option<Vec<char>>)
    ensures
        match r {
            Some(t) => strip_prefix(v@, p@) == Some(t@),
            None => strip_prefix(v@, p@) is None,
        },
{
    let pv = chars_of(p);
    if crate::text::vec_starts_with(v, &pv) {
        Some(subvec(v, pv.len(), v.len()))
    } else {
        None
    }
}

/// `s` split around the first occurrence of `p` (`str::split_once`).
pub open spec fn split_once(s: Seq<char>, p: Seq<char>) -> Option<(Seq<char>, Seq<char>)> {
    match first_occurrence(s, p) {
        Some(i) => Some((s.take(i), s.skip(i + p.len()))),
        None => None,
    }
}

fn split_once_exec(v: &Vec<char>, p: &str) -> (r: Option<(Vec<char>, Vec<char>)>)
    ensures
        match r {
            Some((a, b)) => split_once(v@, p@) == Some((a@, b@)),
            None => split_once(v@, p@) is None,
        },
{
    let pv = chars_of(p);
    match find_pattern(v, &pv) {
        Some(i) => {
            proof {
                lemma_occurrence_from(v@, pv@, 0);
                assert(occurs_at(v@, pv@, i as int));
            }
            let n = v.len();
            assert(i + pv@.len() <= n);
            let a = subvec(v, 0, i);
            let b = subvec(v, i + pv.len(), n);
            assert(a@ =~= v@.take(i as int));
            assert(b@ =~= v@.skip(i + pv@.len()));
            Some((a, b))
        },
        None => None,
    }
}

/// The words of `ws[lo..]` joined by single spaces.
pub open spec fn joined_words(ws: Seq<Seq<char>>) -> Seq<char>
    decreases ws.len(),
{
    if ws.len() == 0 {
        Seq::empty()
    } else if ws.len() == 1 {
        ws[0]
    } else {
        joined_words(ws.drop_last()) + " "@ + ws.last()
    }
}

/// The whitespace-separated words of `v`.
fn words_exec(v: &Vec<char>) -> (r: Vec<Vec<char>>)
    ensures
        crate::text::views(r@) == words(v@),
{
    let mut ws: Vec<Vec<char>> = Vec::new();
    let mut i: usize = 0;
    assert(v@.take(0) =~= Seq::<char>::empty());
    while i < v.len()
        invariant
            i <= v@.len(),
            crate::text::views(ws@) == words(v@.take(i as int)),
        decreases v.len() - i,
    {
        let c = v[i];
        let ghost t = v@.take(i + 1);
        proof {
            assert(t.drop_last() =~= v@.take(i as int));
            assert(t.last() == c);
        }
        if is_ws_exec(c) {
        } else if i >= 1 && !is_ws_exec(v[i - 1]) {
            proof {
                assert(t[t.len() - 2] == v@[i - 1]);
                assert(v@.take(i as int).last() == v@[i - 1]);
                lemma_words_nonempty(v@.take(i as int));
            }
            let k = ws.len() - 1;
            let ghost before = crate::text::views(ws@);
            let mut last = copy_chars(&ws[k]);
            last.push(c);
            ws.set(k, last);
            proof {
                assert(!is_ws(t.last()));
                assert(before.last() == ws@[k as int]@.drop_last());
                assert(crate::text::views(ws@) =~= before.update(
                    before.len() - 1,
                    before.last().push(c),
                ));
            }
        } else {
            let ghost before = crate::text::views(ws@);
            let mut w: Vec<char> = Vec::new();
            w.push(c);
            ws.push(w);
            proof {
                assert(!is_ws(t.last()));
                assert(crate::text::views(ws@) =~= before.push(seq![c]));
            }
        }
        i = i + 1;
    }
    assert(v@.take(i as int) =~= v@);
    ws
}

proof fn lemma_words_nonempty(s: Seq<char>)
    requires
        s.len() > 0,
        !is_ws(s.last()),
    ensures
        words(s).len() >= 1,
    decreases s.len(),
{
    if s.len() >= 2 && !is_ws(s[s.len() - 2]) {
        assert(s.drop_last().last() == s[s.len() - 2]);
        lemma_words_nonempty(s.drop_last());
    }
}

/// `s` without trailing `[` characters (`str::trim_end_matches('[')`).
pub open spec fn trim_brackets(s: Seq<char>) -> Seq<char>
    decreases s.len(),
{
    if s.len() > 0 && s.last() == '[' {
        trim_brackets(s.drop_last())
    } else {
        s
    }
}

fn trim_brackets_exec(v: &Vec<char>) -> (r: Vec<char>)
    ensures
        r@ == trim_brackets(v@),
{
    let mut n: usize = v.len();
    assert(v@.take(n as int) =~= v@);
    while n > 0 && v[n - 1] == '['
        invariant
            n <= v@.len(),
            trim_brackets(v@) == trim_brackets(v@.take(n as int)),
        decreases n,
    {
        assert(v@.take(n as int).drop_last() =~= v@.take(n - 1));
        n = n - 1;
    }
    assert(v@.take(n as int) =~= v@.subrange(0, n as int));
    subvec(v, 0, n)
}

/// `str::parse::<i32>`: an optional sign and one or more digits, within
/// the range of `i32`.
pub open spec fn parse_i32_text(s: Seq<char>) -> Option<int> {
    if s.len() > 0 && s[0] == '-' {
        let d = s.drop_first();
        if d.len() > 0 && all_digits(d) && digits_value(d) <= 2147483648 {
            Some(-(digits_value(d) as int))
        } else {
            None
        }
    } else {
        match parse_unsigned(s, 2147483647) {
            Some(n) => Some(n as int),
            None => None,
        }
    }
}

fn parse_i32(v: &Vec<char>) -> (r: Option<i32>)
    ensures
        match r {
            Some(n) => parse_i32_text(v@) == Some(n as int),
            None => parse_i32_text(v@) is None,
        },
{
    if v.len() > 0 && v[0] == '-' {
        let d = subvec(v, 1, v.len());
        assert(d@ =~= v@.drop_first());
        if d.len() == 0 || d[0] == '+' {
            proof {
                if d@.len() > 0 {
                    assert(!crate::numparse::is_ascii_digit(d@[0]));
                }
            }
            return None;
        }
        match parse_u64(&d) {
            Some(n) => {
                if n <= 2147483648 {
                    let m: i64 = -(n as i64);
                    Some(m as i32)
                } else {
                    None
                }
            },
            None => None,
        }
    } else {
        match parse_u64(v) {
            Some(n) => {
                if n <= 2147483647 {
                    Some(n as i32)
                } else {
                    None
                }
            },
            None => None,
        }
    }
}

// ---------------------------------------------------------------------------
// What a line means
// ---------------------------------------------------------------------------

/// The content of a recognized line, as values.
pub enum LineEvent {
    /// A policy decision.
    Policy { action: Seq<char>, endpoint: Option<Seq<char>>, result: Seq<char>, rule: Option<Seq<char>> },
    /// A network request.
    Network { method: Seq<char>, host: Seq<char>, port: u16, result: Seq<char> },
    /// A command execution.
    Command { command: Seq<char>, exit_code: Option<int>, duration_ms: Option<nat> },
    /// A file change.
    File { operation: Seq<char>, path: Seq<char>, process: Option<Seq<char>> },
    /// A lifecycle change.
    Lifecycle { phase: Seq<char>, previous: Option<Seq<char>> },
    /// A line with undecodable bytes at this offset.
    Undecodable { offset: u64 },
    /// A line that carries the prefix of an event kind (`kind`, such as
    /// `network`) but does not follow that kind's pattern.
    Malformed { kind: Seq<char>, offset: u64 },
}

/// `s` split at the first space, as `splitn(2, ' ')` does.
pub open spec fn split_first_space(s: Seq<char>) -> (Seq<char>, Option<Seq<char>>) {
    match split_once(s, " "@) {
        Some((a, b)) => (a, Some(b)),
        None => (s, None),
    }
}

/// A `policy:` line.
pub open spec fn policy_line(line: Seq<char>) -> Option<LineEvent> {
    match strip_prefix(line, "policy:"@) {
        None => None,
        Some(r0) => match split_once(trim(r0), " -> "@) {
            None => None,
            Some((left, right)) => {
                let (action, endpoint) = split_first_space(trim(left));
                let (result, rule) = match split_once(right, " [rule: "@) {
                    Some((r, rp)) => (
                        trim(r),
                        Some(
                            if rp.len() > 0 && rp.last() == ']' {
                                rp.drop_last()
                            } else {
                                rp
                            },
                        ),
                    ),
                    None => (trim(right), None),
                };
                Some(LineEvent::Policy { action, endpoint, result, rule })
            },
        },
    }
}

/// A `network:` line.
pub open spec fn network_line(line: Seq<char>) -> Option<LineEvent> {
    match strip_prefix(line, "network:"@) {
        None => None,
        Some(r0) => {
            let ws = words(trim(r0));
            if ws.len() < 3 {
                None
            } else {
                match crate::text::rfind(ws[1], ':') {
                    None => None,
                    Some(k) => match parse_unsigned(ws[1].skip(k + 1), 65535) {
                        None => None,
                        Some(port) => Some(
                            LineEvent::Network {
                                method: ws[0],
                                host: ws[1].take(k),
                                port: port as u16,
                                result: joined_words(ws.skip(2)),
                            },
                        ),
                    },
                }
            }
        },
    }
}

/// The command and exit code of an `exec:` line's rest, or `None` when an
/// `[exit=` has no closing bracket.
pub open spec fn command_exit(rest: Seq<char>) -> Option<(Seq<char>, Option<int>)> {
    match first_occurrence(rest, "[exit="@) {
        None => Some((rest, None)),
        Some(idx) => {
            let after = rest.skip(idx + 6);
            match crate::text::find(after, ']') {
                None => None,
                Some(end) => Some((trim(rest.take(idx)), parse_i32_text(after.take(end)))),
            }
        },
    }
}

/// The duration of an `exec:` line's rest (`Some(None)` when there is
/// none or it does not parse), or `None` when an `ms]` has no opening
/// bracket before it.
pub open spec fn command_duration(rest: Seq<char>) -> Option<Option<nat>> {
    match last_occurrence(rest, "ms]"@) {
        None => Some(None),
        Some(idx) => match crate::text::rfind(rest.take(idx), '[') {
            None => None,
            Some(b) => Some(parse_unsigned(trim(rest.subrange(b + 1, idx)), u64::MAX as nat)),
        },
    }
}

/// An `exec:` line.
pub open spec fn exec_line(line: Seq<char>) -> Option<LineEvent> {
    match strip_prefix(line, "exec:"@) {
        None => None,
        Some(r0) => {
            let rest = trim(r0);
            match command_exit(rest) {
                None => None,
                Some((part, exit_code)) => match command_duration(rest) {
                    None => None,
                    Some(duration_ms) => {
                        let command = trim(trim_brackets(part));
                        if command.len() == 0 {
                            None
                        } else {
                            Some(LineEvent::Command { command, exit_code, duration_ms })
                        }
                    },
                },
            }
        },
    }
}

/// A `file:` line.
pub open spec fn file_line(line: Seq<char>) -> Option<LineEvent> {
    match strip_prefix(line, "file:"@) {
        None => None,
        Some(r0) => {
            let rest = trim(r0);
            let (main, process) = match split_once(rest, " by "@) {
                Some((l, r)) => (l, Some(r)),
                None => (rest, None),
            };
            match split_first_space(main) {
                (_, None) => None,
                (operation, Some(path)) => Some(LineEvent::File { operation, path, process }),
            }
        },
    }
}

/// A `lifecycle:` line.
pub open spec fn lifecycle_line(line: Seq<char>) -> Option<LineEvent> {
    match strip_prefix(line, "lifecycle:"@) {
        None => None,
        Some(r0) => {
            let rest = trim(r0);
            let (phase, previous) = match split_once(rest, " from "@) {
                Some((l, r)) => (trim(l), Some(trim(r))),
                None => (rest, None),
            };
            if phase.len() == 0 {
                None
            } else {
                Some(LineEvent::Lifecycle { phase, previous })
            }
        },
    }
}

/// The event kind whose prefix (`policy:`, `network:`, `exec:`, `file:`,
/// `lifecycle:`) a line starts with, if any.
pub open spec fn event_prefix(t: Seq<char>) -> Option<Seq<char>> {
    if strip_prefix(t, "policy:"@) is Some {
        Some("policy"@)
    } else if strip_prefix(t, "network:"@) is Some {
        Some("network"@)
    } else if strip_prefix(t, "exec:"@) is Some {
        Some("exec"@)
    } else if strip_prefix(t, "file:"@) is Some {
        Some("file"@)
    } else if strip_prefix(t, "lifecycle:"@) is Some {
        Some("lifecycle"@)
    } else {
        None
    }
}

/// What a raw log line means, if anything: the patterns are tried in order
/// (policy, network, exec, file, lifecycle) on the trimmed line; a line
/// that carries one of their prefixes but matches none is malformed.
pub open spec fn line_event(line: Seq<char>, offset: u64) -> Option<LineEvent> {
    let t = trim(line);
    if t.len() == 0 {
        None
    } else if t.contains('\u{FFFD}') {
        Some(LineEvent::Undecodable { offset })
    } else if policy_line(t) is Some {
        policy_line(t)
    } else if network_line(t) is Some {
        network_line(t)
    } else if exec_line(t) is Some {
        exec_line(t)
    } else if file_line(t) is Some {
        file_line(t)
    } else if lifecycle_line(t) is Some {
        lifecycle_line(t)
    } else {
        match event_prefix(t) {
            Some(kind) => Some(LineEvent::Malformed { kind, offset }),
            None => None,
        }
    }
}

/// An optional string by its view.
pub open spec fn opt_view(o: Option<String>) -> Option<Seq<char>> {
    match o {
        Some(s) => Some(s@),
        None => None,
    }
}

/// The message of an undecodable-line event.
pub open spec fn undecodable_message(offset: u64) -> Seq<char> {
    "skipped log line with non-UTF-8 bytes at offset "@ + decimal(offset as nat)
}

/// The message of a malformed-line event.
pub open spec fn malformed_message(kind: Seq<char>, offset: u64) -> Seq<char> {
    "skipped malformed "@ + kind + " log line at offset "@ + decimal(offset as nat)
}

/// A payload carries a line's content.
pub open spec fn payload_is(p: EventPayload, e: LineEvent) -> bool {
    match e {
        LineEvent::Policy { action, endpoint, result, rule } => p matches EventPayload::PolicyDecision(
            x,
        ) && x.action@ == action && x.binary is None && opt_view(x.endpoint) == endpoint
            && x.result@ == result && opt_view(x.rule_matched) == rule,
        LineEvent::Network { method, host, port, result } => p matches EventPayload::NetworkRequest(
            x,
        ) && opt_view(x.method) == Some(method) && x.host@ == host && x.port == port
            && x.policy_result@ == result,
        LineEvent::Command { command, exit_code, duration_ms } =>
            p matches EventPayload::CommandExecuted(x) && x.command@ == command && match (
            x.exit_code,
            exit_code,
        ) {
            (Some(a), Some(b)) => a as int == b,
            (None, None) => true,
            _ => false,
        } && match (x.duration_ms, duration_ms) {
            (Some(a), Some(b)) => a as nat == b,
            (None, None) => true,
            _ => false,
        },
        LineEvent::File { operation, path, process } => p matches EventPayload::FileChanged(x)
            && x.operation@ == operation && x.path@ == path && opt_view(x.process) == process,
        LineEvent::Lifecycle { phase, previous } => p matches EventPayload::SandboxStateChange(x)
            && x.phase@ == phase && opt_view(x.previous_phase) == previous,
        LineEvent::Undecodable { offset } => p matches EventPayload::WatchMeta(x)
            && x.overflow_count is None && x.parse_error_offset == Some(offset) && x.message@
            == undecodable_message(offset),
        LineEvent::Malformed { kind, offset } => p matches EventPayload::WatchMeta(x)
            && x.overflow_count is None && x.parse_error_offset == Some(offset) && x.message@
            == malformed_message(kind, offset),
    }
}

// ---------------------------------------------------------------------------
// Parsing
// ---------------------------------------------------------------------------

/// The payload a pattern gives, related to what the line means.
pub open spec fn parsed_as(r: Option<EventPayload>, e: Option<LineEvent>) -> bool {
    match r {
        Some(p) => e matches Some(ev) && payload_is(p, ev),
        None => e is None,
    }
}

fn opt_string(o: Option<Vec<char>>) -> (r: Option<String>)
    ensures
        opt_view(r) == match o {
            Some(v) => Some(v@),
            None => None::<Seq<char>>,
        },
{
    match o {
        Some(v) => Some(string_from_chars(&v)),
        None => None,
    }
}

fn split_first_space_exec(v: &Vec<char>) -> (r: (Vec<char>, Option<Vec<char>>))
    ensures
        (r.0@, match r.1 {
            Some(b) => Some(b@),
            None => None::<Seq<char>>,
        }) == split_first_space(v@),
{
    match split_once_exec(v, " ") {
        Some((a, b)) => (a, Some(b)),
        None => (copy_chars(v), None),
    }
}

fn try_parse_policy_decision(line: &Vec<char>) -> (r: Option<EventPayload>)
    ensures
        parsed_as(r, policy_line(line@)),
{
    let r0 = match strip_prefix_exec(line, "policy:") {
        Some(t) => t,
        None => {
            return None;
        },
    };
    let rest = trim_chars(&r0);
    let (left, right) = match split_once_exec(&rest, " -> ") {
        Some(x) => x,
        None => {
            return None;
        },
    };
    let tl = trim_chars(&left);
    let (action, endpoint) = split_first_space_exec(&tl);
    let (result, rule) = match split_once_exec(&right, " [rule: ") {
        Some((rv, rp)) => {
            let rule = if rp.len() > 0 && rp[rp.len() - 1] == ']' {
                subvec(&rp, 0, rp.len() - 1)
            } else {
                copy_chars(&rp)
            };
            proof {
                if rp@.len() > 0 && rp@.last() == ']' {
                    assert(rule@ =~= rp@.drop_last());
                }
            }
            (trim_chars(&rv), Some(rule))
        },
        None => (trim_chars(&right), None),
    };
    Some(
        EventPayload::PolicyDecision(
            PolicyEvent {
                action: string_from_chars(&action),
                binary: None,
                endpoint: opt_string(endpoint),
                result: string_from_chars(&result),
                rule_matched: opt_string(rule),
            },
        ),
    )
}

fn join_words_from(ws: &Vec<Vec<char>>, lo: usize) -> (r: Vec<char>)
    requires
        lo <= ws@.len(),
    ensures
        r@ == joined_words(crate::text::views(ws@).skip(lo as int)),
{
    let ghost all = crate::text::views(ws@).skip(lo as int);
    let mut r: Vec<char> = Vec::new();
    let mut i: usize = lo;
    assert(all.take(0) =~= Seq::<Seq<char>>::empty());
    while i < ws.len()
        invariant
            lo <= i <= ws@.len(),
            all == crate::text::views(ws@).skip(lo as int),
            r@ == joined_words(all.take(i - lo)),
        decreases ws.len() - i,
    {
        let ghost before = r@;
        if i > lo {
            r.push(' ');
        }
        let mut k: usize = 0;
        let ghost mid = r@;
        while k < ws[i].len()
            invariant
                k <= ws@[i as int]@.len(),
                i < ws@.len(),
                r@ == mid + ws@[i as int]@.take(k as int),
            decreases ws@[i as int]@.len() - k,
        {
            r.push(ws[i][k]);
            assert(ws@[i as int]@.take(k + 1) =~= ws@[i as int]@.take(k as int).push(ws@[i as int]@[k as int]));
            k = k + 1;
        }
        proof {
            assert(ws@[i as int]@.take(k as int) =~= ws@[i as int]@);
            let t = all.take(i + 1 - lo);
            assert(t.drop_last() =~= all.take(i - lo));
            assert(t.last() == ws@[i as int]@);
            reveal_strlit(" ");
            if i > lo {
                assert(r@ =~= joined_words(t.drop_last()) + " "@ + t.last());
            } else {
                assert(all.take(0) =~= Seq::<Seq<char>>::empty());
                assert(r@ =~= t.last());
            }
        }
        i = i + 1;
    }
    assert(all.take(i - lo) =~= all);
    r
}

fn try_parse_network_request(line: &Vec<char>) -> (r: Option<EventPayload>)
    ensures
        parsed_as(r, network_line(line@)),
{
    let r0 = match strip_prefix_exec(line, "network:") {
        Some(t) => t,
        None => {
            return None;
        },
    };
    let rest = trim_chars(&r0);
    let ws = words_exec(&rest);
    if ws.len() < 3 {
        return None;
    }
    let ghost wv = crate::text::views(ws@);
    assert(wv[1] == ws@[1]@ && wv[0] == ws@[0]@);
    let hp = &ws[1];
    let k = match crate::text::rfind_exec(hp, ':') {
        Some(k) => k,
        None => {
            return None;
        },
    };
    proof {
        crate::text::lemma_rfind(hp@, ':');
    }
    let port_text = subvec(hp, k + 1, hp.len());
    assert(port_text@ =~= hp@.skip(k + 1));
    let port = match parse_u16(&port_text) {
        Some(p) => p,
        None => {
            return None;
        },
    };
    let host = subvec(hp, 0, k);
    assert(host@ =~= hp@.take(k as int));
    let result = join_words_from(&ws, 2);
    Some(
        EventPayload::NetworkRequest(
            NetworkEvent {
                host: string_from_chars(&host),
                port,
                method: Some(string_from_chars(&ws[0])),
                policy_result: string_from_chars(&result),
            },
        ),
    )
}

fn try_parse_command_executed(line: &Vec<char>) -> (r: Option<EventPayload>)
    ensures
        parsed_as(r, exec_line(line@)),
{
    let r0 = match strip_prefix_exec(line, "exec:") {
        Some(t) => t,
        None => {
            return None;
        },
    };
    let rest = trim_chars(&r0);
    let exit_pat = chars_of("[exit=");
    let (part, exit_code) = match find_pattern(&rest, &exit_pat) {
        Some(idx) => {
            proof {
                reveal_strlit("[exit=");
                lemma_occurrence_from(rest@, exit_pat@, 0);
            }
            let n = rest.len();
            assert(exit_pat@.len() == 6);
            assert(idx + 6 <= n);
            let before = subvec(&rest, 0, idx);
            let after = subvec(&rest, idx + 6, n);
            assert(after@ =~= rest@.skip(idx + 6));
            let end = match crate::text::find_exec(&after, ']') {
                Some(e) => e,
                None => {
                    return None;
                },
            };
            proof {
                crate::text::lemma_find(after@, ']');
            }
            let code_text = subvec(&after, 0, end);
            assert(code_text@ =~= after@.take(end as int));
            assert(before@ =~= rest@.take(idx as int));
            (trim_chars(&before), parse_i32(&code_text))
        },
        None => (copy_chars(&rest), None),
    };
    let ms_pat = chars_of("ms]");
    let duration_ms = match rfind_pattern(&rest, &ms_pat) {
        Some(idx) => {
            proof {
                reveal_strlit("ms]");
                lemma_occurrence_upto(rest@, ms_pat@, rest@.len() - ms_pat@.len());
            }
            let head = subvec(&rest, 0, idx);
            assert(head@ =~= rest@.take(idx as int));
            let b = match crate::text::rfind_exec(&head, '[') {
                Some(b) => b,
                None => {
                    return None;
                },
            };
            proof {
                crate::text::lemma_rfind(head@, '[');
            }
            let inner = subvec(&rest, b + 1, idx);
            let t = trim_chars(&inner);
            parse_u64(&t)
        },
        None => None,
    };
    let command = trim_chars(&trim_brackets_exec(&part));
    if command.len() == 0 {
        return None;
    }
    Some(
        EventPayload::CommandExecuted(
            CommandEvent { command: string_from_chars(&command), exit_code, duration_ms },
        ),
    )
}

proof fn lemma_occurrence_upto(s: Seq<char>, p: Seq<char>, j: int)
    ensures
        occurrence_upto(s, p, j) matches Some(i) ==> 0 <= i <= j && occurs_at(s, p, i),
    decreases j + 1,
{
    if j >= 0 && !occurs_at(s, p, j) {
        lemma_occurrence_upto(s, p, j - 1);
    }
}

fn try_parse_file_changed(line: &Vec<char>) -> (r: Option<EventPayload>)
    ensures
        parsed_as(r, file_line(line@)),
{
    let r0 = match strip_prefix_exec(line, "file:") {
        Some(t) => t,
        None => {
            return None;
        },
    };
    let rest = trim_chars(&r0);
    let (main, process) = match split_once_exec(&rest, " by ") {
        Some((l, r)) => (l, Some(r)),
        None => (copy_chars(&rest), None),
    };
    let (operation, path) = split_first_space_exec(&main);
    match path {
        None => None,
        Some(p) => Some(
            EventPayload::FileChanged(
                FileEvent {
                    operation: string_from_chars(&operation),
                    path: string_from_chars(&p),
                    process: opt_string(process),
                },
            ),
        ),
    }
}

fn try_parse_lifecycle(line: &Vec<char>) -> (r: Option<EventPayload>)
    ensures
        parsed_as(r, lifecycle_line(line@)),
{
    let r0 = match strip_prefix_exec(line, "lifecycle:") {
        Some(t) => t,
        None => {
            return None;
        },
    };
    let rest = trim_chars(&r0);
    let (phase, previous) = match split_once_exec(&rest, " from ") {
        Some((l, r)) => (trim_chars(&l), Some(trim_chars(&r))),
        None => (copy_chars(&rest), None),
    };
    if phase.len() == 0 {
        return None;
    }
    Some(
        EventPayload::SandboxStateChange(
            LifecycleEvent { phase: string_from_chars(&phase), previous_phase: opt_string(previous) },
        ),
    )
}

/// The event kind whose prefix a line starts with, if any.
fn event_prefix_exec(t: &Vec<char>) -> (r: Option<&'static str>)
    ensures
        match r {
            Some(k) => event_prefix(t@) == Some(k@),
            None => event_prefix(t@) is None,
        },
{
    if strip_prefix_exec(t, "policy:").is_some() {
        Some("policy")
    } else if strip_prefix_exec(t, "network:").is_some() {
        Some("network")
    } else if strip_prefix_exec(t, "exec:").is_some() {
        Some("exec")
    } else if strip_prefix_exec(t, "file:").is_some() {
        Some("file")
    } else if strip_prefix_exec(t, "lifecycle:").is_some() {
        Some("lifecycle")
    } else {
        None
    }
}

/// Parse a raw log line into an event, if it is one.
///
/// Empty and whitespace-only lines, and lines that carry no event prefix,
/// are not events. A line holding the replacement character (undecodable
/// bytes) becomes a watch-meta parse-error event at `byte_offset`; so does
/// a line that carries an event prefix but does not follow its pattern.
/// Patterns are tried in order: policy, network, exec, file, lifecycle.
pub fn parse_log_line(sandbox: &str, line: &str, byte_offset: u64) -> (r: Option<WatchEvent>)
    ensures
        match r {
            Some(e) => line_event(line@, byte_offset) matches Some(ev) && payload_is(
                e.payload_spec(),
                ev,
            ) && e.sandbox_spec()@ == sandbox@,
            None => line_event(line@, byte_offset) is None,
        },
{
    let v = chars_of(line);
    let t = trim_chars(&v);
    if t.len() == 0 {
        return None;
    }
    if vec_has_char(&t, '\u{FFFD}') {
        let mut message = crate::text::to_owned_string(
            "skipped log line with non-UTF-8 bytes at offset ",
        );
        push_str_chars(&mut message, u64_to_decimal(byte_offset).as_str());
        return Some(
            WatchEvent::new(
                sandbox,
                EventPayload::WatchMeta(
                    WatchMetaEvent {
                        overflow_count: None,
                        parse_error_offset: Some(byte_offset),
                        message,
                    },
                ),
            ),
        );
    }
    let p = match try_parse_policy_decision(&t) {
        Some(p) => Some(p),
        None => match try_parse_network_request(&t) {
            Some(p) => Some(p),
            None => match try_parse_command_executed(&t) {
                Some(p) => Some(p),
                None => match try_parse_file_changed(&t) {
                    Some(p) => Some(p),
                    None => try_parse_lifecycle(&t),
                },
            },
        },
    };
    match p {
        Some(payload) => Some(WatchEvent::new(sandbox, payload)),
        None => match event_prefix_exec(&t) {
            Some(kind) => {
                let mut message = crate::text::to_owned_string("skipped malformed ");
                push_str_chars(&mut message, kind);
                push_str_chars(&mut message, " log line at offset ");
                push_str_chars(&mut message, u64_to_decimal(byte_offset).as_str());
                Some(
                    WatchEvent::new(
                        sandbox,
                        EventPayload::WatchMeta(
                            WatchMetaEvent {
                                overflow_count: None,
                                parse_error_offset: Some(byte_offset),
                                message,
                            },
                        ),
                    ),
                )
            },
            None => None,
        },
    }
}

} // verus!

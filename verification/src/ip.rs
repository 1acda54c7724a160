//! Recognition of textual IP addresses with the grammar that Rust's
//! `Ipv4Addr` and `Ipv6Addr` parsers accept: dotted-quad IPv4 without leading
//! zeros, and RFC 4291 IPv6 text with at most one `::` and an optional
//! embedded IPv4 tail.

use vstd::prelude::*;
use crate::numparse::{all_digits, digits_value, is_ascii_digit};
use crate::text::{occurs_at, occurs_at_exec, split_chars, split_on, views};

verus! {

/// Hexadecimal digit.
pub open spec fn is_hex_digit(c: char) -> bool {
    is_ascii_digit(c) || ('a' <= c && c <= 'f') || ('A' <= c && c <= 'F')
}

/// One IPv6 group: one to four hexadecimal digits.
pub open spec fn is_hex_group(t: Seq<char>) -> bool {
    1 <= t.len() <= 4 && forall|i: int| 0 <= i < t.len() ==> is_hex_digit(#[trigger] t[i])
}

/// One IPv4 octet: one to three digits, at most 255, no leading zero.
pub open spec fn is_ipv4_octet(t: Seq<char>) -> bool {
    &&& 1 <= t.len() <= 3
    &&& all_digits(t)
    &&& digits_value(t) <= 255
    &&& (t.len() == 1 || t[0] != '0')
}

/// Dotted-quad IPv4 text.
pub open spec fn is_ipv4_text(s: Seq<char>) -> bool {
    let p = split_on(s, '.');
    p.len() == 4 && forall|i: int| 0 <= i < 4 ==> is_ipv4_octet(#[trigger] p[i])
}

/// The number of 16-bit groups a colon-separated run of tokens stands for:
/// every token is a hex group, except that the last may be an embedded IPv4
/// address (worth two groups) when `allow_v4` holds.
pub open spec fn run_width(toks: Seq<Seq<char>>, allow_v4: bool) -> Option<nat> {
    if toks.len() == 0 {
        None
    } else if forall|i: int| 0 <= i < toks.len() - 1 ==> is_hex_group(#[trigger] toks[i]) {
        if is_hex_group(toks.last()) {
            Some(toks.len())
        } else if allow_v4 && is_ipv4_text(toks.last()) {
            Some(toks.len() + 1)
        } else {
            None
        }
    } else {
        None
    }
}

/// Width of a possibly empty run of groups around a `::`.
pub open spec fn side_width(s: Seq<char>, allow_v4: bool) -> Option<nat> {
    if s.len() == 0 {
        Some(0)
    } else {
        run_width(split_on(s, ':'), allow_v4)
    }
}

/// The two characters `::`.
pub open spec fn double_colon() -> Seq<char> {
    seq![':', ':']
}

/// `p` is the first position of `::` in `s`.
pub open spec fn first_double_colon(s: Seq<char>, p: int) -> bool {
    occurs_at(s, double_colon(), p) && forall|q: int| 0 <= q < p ==> !#[trigger] occurs_at(
        s,
        double_colon(),
        q,
    )
}

/// IPv6 text as accepted by `Ipv6Addr::from_str`.
pub open spec fn is_ipv6_text(s: Seq<char>) -> bool {
    if exists|p: int| #[trigger] first_double_colon(s, p) {
        let p = choose|p: int| #[trigger] first_double_colon(s, p);
        match (side_width(s.take(p), false), side_width(s.skip(p + 2), true)) {
            (Some(h), Some(t)) => h + t <= 7,
            _ => false,
        }
    } else {
        run_width(split_on(s, ':'), true) == Some(8nat)
    }
}

fn is_hex_digit_exec(c: char) -> (b: bool)
    ensures
        b == is_hex_digit(c),
{
    ('0' <= c && c <= '9') || ('a' <= c && c <= 'f') || ('A' <= c && c <= 'F')
}

fn is_hex_group_exec(t: &Vec<char>) -> (b: bool)
    ensures
        b == is_hex_group(t@),
{
    if t.len() < 1 || t.len() > 4 {
        return false;
    }
    let mut i: usize = 0;
    while i < t.len()
        invariant
            i <= t@.len(),
            forall|j: int| 0 <= j < i ==> is_hex_digit(#[trigger] t@[j]),
        decreases t.len() - i,
    {
        if !is_hex_digit_exec(t[i]) {
            return false;
        }
        i = i + 1;
    }
    true
}

fn is_ipv4_octet_exec(t: &Vec<char>) -> (b: bool)
    ensures
        b == is_ipv4_octet(t@),
{
    if t.len() < 1 || t.len() > 3 {
        return false;
    }
    let mut value: u32 = 0;
    let mut i: usize = 0;
    assert(t@.take(0) =~= Seq::<char>::empty());
    while i < t.len()
        invariant
            i <= t@.len() <= 3,
            all_digits(t@.take(i as int)),
            value == digits_value(t@.take(i as int)),
            i == 0 ==> value == 0,
            i == 1 ==> value <= 9,
            i == 2 ==> value <= 99,
            value <= 999,
        decreases t.len() - i,
    {
        let c = t[i];
        if !('0' <= c && c <= '9') {
            assert(!all_digits(t@)) by {
                assert(!is_ascii_digit(t@[i as int]));
            }
            return false;
        }
        assert(t@.take(i + 1).drop_last() =~= t@.take(i as int));
        assert(all_digits(t@.take(i + 1)));
        value = value * 10 + ((c as u32) - 48);
        i = i + 1;
    }
    assert(t@.take(t@.len() as int) =~= t@);
    value <= 255 && (t.len() == 1 || t[0] != '0')
}

/// Whether `v` is dotted-quad IPv4 text.
pub fn is_ipv4_exec(v: &Vec<char>) -> (b: bool)
    ensures
        b == is_ipv4_text(v@),
{
    let parts = split_chars(v, '.');
    if parts.len() != 4 {
        return false;
    }
    let mut i: usize = 0;
    while i < 4
        invariant
            i <= 4,
            parts@.len() == 4,
            views(parts@) == split_on(v@, '.'),
            forall|j: int| 0 <= j < i ==> is_ipv4_octet(#[trigger] split_on(v@, '.')[j]),
        decreases 4 - i,
    {
        assert(views(parts@)[i as int] == parts@[i as int]@);
        if !is_ipv4_octet_exec(&parts[i]) {
            return false;
        }
        i = i + 1;
    }
    true
}

/// The smaller of a width and nine (enough to compare widths with 7 and 8).
pub open spec fn capped(w: nat) -> nat {
    if w > 9 { 9 } else { w }
}

fn run_width_exec(toks: &Vec<Vec<char>>, allow_v4: bool) -> (r: Option<usize>)
    ensures
        r matches Some(n) ==> run_width(views(toks@), allow_v4) matches Some(w) && n == capped(w),
        r is None ==> run_width(views(toks@), allow_v4) is None,
{
    let ghost vt = views(toks@);
    if toks.len() == 0 {
        return None;
    }
    let n = toks.len();
    let mut i: usize = 0;
    while i < n - 1
        invariant
            n == toks@.len(),
            n >= 1,
            i <= n - 1,
            vt == views(toks@),
            forall|j: int| 0 <= j < i ==> is_hex_group(#[trigger] vt[j]),
        decreases n - 1 - i,
    {
        assert(vt[i as int] == toks@[i as int]@);
        if !is_hex_group_exec(&toks[i]) {
            return None;
        }
        i = i + 1;
    }
    assert(vt.last() == toks@[n - 1]@);
    if is_hex_group_exec(&toks[n - 1]) {
        if n > 9 { Some(9) } else { Some(n) }
    } else if allow_v4 && is_ipv4_exec(&toks[n - 1]) {
        if n > 8 { Some(9) } else { Some(n + 1) }
    } else {
        None
    }
}

fn side_width_exec(v: &Vec<char>, lo: usize, hi: usize, allow_v4: bool) -> (r: Option<usize>)
    requires
        lo <= hi <= v@.len(),
    ensures
        r matches Some(n) ==> side_width(v@.subrange(lo as int, hi as int), allow_v4) matches Some(
            w,
        ) && n == capped(w),
        r is None ==> side_width(v@.subrange(lo as int, hi as int), allow_v4) is None,
{
    if lo == hi {
        return Some(0);
    }
    let part = crate::text::subvec(v, lo, hi);
    let toks = split_chars(&part, ':');
    run_width_exec(&toks, allow_v4)
}

/// The first position of `p` in `v`.
fn find_first(v: &Vec<char>, p: &Vec<char>) -> (r: Option<usize>)
    ensures
        r matches Some(i) ==> occurs_at(v@, p@, i as int) && forall|q: int|
            0 <= q < i ==> !#[trigger] occurs_at(v@, p@, q),
        r is None ==> forall|q: int| !#[trigger] occurs_at(v@, p@, q),
{
    let mut i: usize = 0;
    while i < v.len()
        invariant
            i <= v@.len(),
            forall|q: int| 0 <= q < i ==> !#[trigger] occurs_at(v@, p@, q),
        decreases v.len() - i,
    {
        if occurs_at_exec(v, p, i) {
            return Some(i);
        }
        i = i + 1;
    }
    if occurs_at_exec(v, p, i) {
        return Some(i);
    }
    assert forall|q: int| !#[trigger] occurs_at(v@, p@, q) by {
        if q > i {
            assert(!occurs_at(v@, p@, q));
        }
    }
    None
}

/// Whether `v` is IPv6 text.
pub fn is_ipv6_exec(v: &Vec<char>) -> (b: bool)
    ensures
        b == is_ipv6_text(v@),
{
    let mut dc: Vec<char> = Vec::new();
    dc.push(':');
    dc.push(':');
    assert(dc@ =~= double_colon());
    let found = find_first(v, &dc);
    let n = v.len();
    if let Some(p) = found {
        assert(double_colon().len() == 2);
        assert(p + 2 <= v@.len());
        assert(first_double_colon(v@, p as int));
        proof {
            let c = choose|q: int| #[trigger] first_double_colon(v@, q);
            if c < p {
                assert(!occurs_at(v@, double_colon(), c));
            }
            if p < c {
                assert(!occurs_at(v@, double_colon(), p as int));
            }
        }
        assert(v@.take(p as int) =~= v@.subrange(0, p as int));
        assert(v@.skip(p + 2) =~= v@.subrange(p + 2, v@.len() as int));
        let h = side_width_exec(v, 0, p, false);
        let t = side_width_exec(v, p + 2, n, true);
        match (h, t) {
            (Some(h), Some(t)) => h <= 7 && t <= 7 - h,
            _ => false,
        }
    } else {
        assert forall|q: int| !#[trigger] first_double_colon(v@, q) by {
            assert(!occurs_at(v@, double_colon(), q));
        }
        let toks = split_chars(v, ':');
        match run_width_exec(&toks, true) {
            Some(n) => n == 8,
            None => false,
        }
    }
}

} // verus!

//! Parsing of unsigned decimal integers with the grammar of Rust's
//! `FromStr` for unsigned integer types: an optional `+`, then one or more
//! ASCII digits, with a value that fits the type.

use vstd::prelude::*;

verus! {

/// ASCII decimal digit.
pub open spec fn is_ascii_digit(c: char) -> bool {
    '0' <= c && c <= '9'
}

/// All characters are ASCII digits.
pub open spec fn all_digits(s: Seq<char>) -> bool {
    forall|i: int| 0 <= i < s.len() ==> is_ascii_digit(#[trigger] s[i])
}

/// Numeric value of a string of digits.
pub open spec fn digits_value(s: Seq<char>) -> nat
    decreases s.len(),
{
    if s.len() == 0 {
        0
    } else {
        digits_value(s.drop_last()) * 10 + ((s.last() as u32) - 48) as nat
    }
}

/// The digit part of an unsigned integer literal: an optional leading `+`
/// followed by at least one digit, nothing else.
pub open spec fn unsigned_digits(s: Seq<char>) -> Option<Seq<char>> {
    if s.len() > 0 && s[0] == '+' {
        let d = s.drop_first();
        if d.len() > 0 && all_digits(d) {
            Some(d)
        } else {
            None
        }
    } else if s.len() > 0 && all_digits(s) {
        Some(s)
    } else {
        None
    }
}

/// The value of `s` parsed as an unsigned integer whose type holds values up
/// to `max`, or `None` when `s` is not such a literal.
pub open spec fn parse_unsigned(s: Seq<char>, max: nat) -> Option<nat> {
    match unsigned_digits(s) {
        Some(d) => if digits_value(d) <= max {
            Some(digits_value(d))
        } else {
            None
        },
        None => None,
    }
}

proof fn lemma_digits_value_take_step(s: Seq<char>, k: int)
    requires
        0 <= k < s.len(),
    ensures
        digits_value(s.take(k + 1)) == digits_value(s.take(k)) * 10 + ((s[k] as u32) - 48) as nat,
{
    assert(s.take(k + 1).drop_last() =~= s.take(k));
}

proof fn lemma_digits_value_take_monotone(s: Seq<char>, i: int, j: int)
    requires
        0 <= i <= j <= s.len(),
        all_digits(s),
    ensures
        digits_value(s.take(i)) <= digits_value(s.take(j)),
    decreases j - i,
{
    if i < j {
        lemma_digits_value_take_monotone(s, i, j - 1);
        lemma_digits_value_take_step(s, j - 1);
    }
}

/// Parses the characters `v[start..]` as digits; `None` on a non-digit, an
/// empty digit string, or a value above `u64::MAX`.
fn parse_digits_from(v: &Vec<char>, start: usize) -> (r: Option<u64>)
    requires
        start <= v@.len(),
    ensures
        ({
            let d = v@.skip(start as int);
            match r {
                Some(n) => d.len() > 0 && all_digits(d) && n == digits_value(d),
                None => !(d.len() > 0 && all_digits(d)) || digits_value(d) > u64::MAX,
            }
        }),
{
    let ghost d = v@.skip(start as int);
    if start == v.len() {
        return None;
    }
    let mut acc: u64 = 0;
    let mut i = start;
    assert(d.take(0) =~= Seq::<char>::empty());
    while i < v.len()
        invariant
            start <= i <= v@.len(),
            d == v@.skip(start as int),
            all_digits(d.take(i - start)),
            acc == digits_value(d.take(i - start)),
        decreases v.len() - i,
    {
        let c = v[i];
        assert(d[i - start] == c);
        if !('0' <= c && c <= '9') {
            return None;
        }
        let dv: u64 = ((c as u32) - 48) as u64;
        proof {
            lemma_digits_value_take_step(d, i - start);
            assert(d.take(i - start + 1) =~= d.take(i - start).push(c));
        }
        if acc > (u64::MAX - dv) / 10 {
            proof {
                let k = i - start + 1;
                assert(digits_value(d.take(k)) > u64::MAX);
                if all_digits(d) {
                    lemma_digits_value_take_monotone(d, k, d.len() as int);
                    assert(d.take(d.len() as int) =~= d);
                }
            }
            return None;
        }
        acc = acc * 10 + dv;
        i = i + 1;
    }
    assert(d.take(i - start) =~= d);
    Some(acc)
}

/// Parses a string the way `str::parse::<u64>` does.
pub fn parse_u64(v: &Vec<char>) -> (r: Option<u64>)
    ensures
        r matches Some(n) ==> parse_unsigned(v@, u64::MAX as nat) == Some(n as nat),
        r is None ==> parse_unsigned(v@, u64::MAX as nat) is None,
{
    if v.len() > 0 && v[0] == '+' {
        assert(v@.skip(1) =~= v@.drop_first());
        parse_digits_from(v, 1)
    } else {
        assert(v@.skip(0) =~= v@);
        parse_digits_from(v, 0)
    }
}

/// Parses a string the way `str::parse::<u16>` does.
pub fn parse_u16(v: &Vec<char>) -> (r: Option<u16>)
    ensures
        r matches Some(n) ==> parse_unsigned(v@, u16::MAX as nat) == Some(n as nat),
        r is None ==> parse_unsigned(v@, u16::MAX as nat) is None,
{
    match parse_u64(v) {
        Some(n) => if n <= 65535 {
            Some(n as u16)
        } else {
            None
        },
        None => None,
    }
}

} // verus!

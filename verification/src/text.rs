//! Character-level string helpers shared by the rest of the library.
//!
//! Strings are specified by their view, a `Seq<char>`. Byte lengths are the
//! UTF-8 encoded lengths, given by `utf8_len`.

use vstd::prelude::*;

verus! {

/// Number of bytes in the UTF-8 encoding of one character.
pub open spec fn char_utf8_len(c: char) -> nat {
    if (c as u32) < 0x80 {
        1
    } else if (c as u32) < 0x800 {
        2
    } else if (c as u32) < 0x10000 {
        3
    } else {
        4
    }
}

/// Number of bytes in the UTF-8 encoding of a character sequence.
pub open spec fn utf8_len(s: Seq<char>) -> nat
    decreases s.len(),
{
    if s.len() == 0 {
        0
    } else {
        utf8_len(s.drop_last()) + char_utf8_len(s.last())
    }
}

/// Executable byte length of one character.
pub fn char_len_utf8(c: char) -> (n: usize)
    ensures
        n == char_utf8_len(c),
        1 <= n <= 4,
{
    let u = c as u32;
    if u < 0x80 {
        1
    } else if u < 0x800 {
        2
    } else if u < 0x10000 {
        3
    } else {
        4
    }
}

/// The characters of a string slice, in order.
pub fn chars_of(s: &str) -> (v: Vec<char>)
    ensures
        v@ == s@,
{
    let mut v: Vec<char> = Vec::new();
    for c in it: s.chars()
        invariant
            v@ == it.seq().take(it.index() as int),
    {
        v.push(c);
    }
    v
}


/// Appends one character to a `String` (`String::push`).
///
/// The claim, from the documentation of `String::push`: the string afterwards
/// is the old one with `c` added at the end.
#[verifier::external_body]
pub(crate) fn push_char(s: &mut String, c: char)
    ensures
        final(s)@ == old(s)@.push(c),
{
    s.push(c);
}

/// A new `String` holding the first `k` characters of `v`.
pub fn string_from_prefix(v: &Vec<char>, k: usize) -> (r: String)
    requires
        k <= v@.len(),
    ensures
        r@ == v@.take(k as int),
{
    let mut r = String::new();
    let mut i: usize = 0;
    while i < k
        invariant
            i <= k <= v@.len(),
            r@ == v@.take(i as int),
        decreases k - i,
    {
        push_char(&mut r, v[i]);
        assert(v@.take(i as int).push(v@[i as int]) =~= v@.take(i + 1));
        i = i + 1;
    }
    r
}

/// A new `String` holding all characters of `v`.
pub fn string_from_chars(v: &Vec<char>) -> (r: String)
    ensures
        r@ == v@,
{
    let r = string_from_prefix(v, v.len());
    assert(v@.take(v@.len() as int) =~= v@);
    r
}

/// A copy of a string slice as an owned `String`.
pub fn to_owned_string(s: &str) -> (r: String)
    ensures
        r@ == s@,
{
    let v = chars_of(s);
    string_from_chars(&v)
}

/// Appends all characters of `v` to `s`.
pub fn push_chars(s: &mut String, v: &Vec<char>)
    ensures
        final(s)@ == old(s)@ + v@,
{
    let mut i: usize = 0;
    while i < v.len()
        invariant
            i <= v@.len(),
            s@ == old(s)@ + v@.take(i as int),
        decreases v.len() - i,
    {
        push_char(s, v[i]);
        assert(old(s)@ + v@.take(i as int).push(v@[i as int]) =~= old(s)@ + v@.take(i + 1));
        i = i + 1;
    }
    assert(v@.take(v@.len() as int) =~= v@);
}

/// Appends the characters of a string slice to `s`.
pub fn push_str_chars(s: &mut String, t: &str)
    ensures
        final(s)@ == old(s)@ + t@,
{
    let v = chars_of(t);
    push_chars(s, &v);
}

/// Byte length of a prefix grows by the length of the next character.
pub proof fn lemma_utf8_len_take_step(s: Seq<char>, k: int)
    requires
        0 <= k < s.len(),
    ensures
        utf8_len(s.take(k + 1)) == utf8_len(s.take(k)) + char_utf8_len(s[k]),
{
    assert(s.take(k + 1).drop_last() =~= s.take(k));
}

/// Byte length of prefixes is monotone in the prefix length.
pub proof fn lemma_utf8_len_take_monotone(s: Seq<char>, i: int, j: int)
    requires
        0 <= i <= j <= s.len(),
    ensures
        utf8_len(s.take(i)) <= utf8_len(s.take(j)),
    decreases j - i,
{
    if i < j {
        lemma_utf8_len_take_monotone(s, i, j - 1);
        lemma_utf8_len_take_step(s, j - 1);
    }
}

/// Byte length of a concatenation is the sum of the byte lengths.
pub proof fn lemma_utf8_len_concat(a: Seq<char>, b: Seq<char>)
    ensures
        utf8_len(a + b) == utf8_len(a) + utf8_len(b),
    decreases b.len(),
{
    if b.len() > 0 {
        assert((a + b).drop_last() =~= a + b.drop_last());
        lemma_utf8_len_concat(a, b.drop_last());
    } else {
        assert(a + b =~= a);
    }
}

/// `k` is the length of the longest prefix of `s` whose UTF-8 encoding fits
/// in `limit` bytes.
pub open spec fn is_longest_fitting_prefix(s: Seq<char>, k: int, limit: int) -> bool {
    &&& 0 <= k <= s.len()
    &&& utf8_len(s.take(k)) <= limit
    &&& (k == s.len() || utf8_len(s.take(k + 1)) > limit)
}

/// The longest fitting prefix is unique.
pub proof fn lemma_longest_fitting_prefix_unique(s: Seq<char>, k1: int, k2: int, limit: int)
    requires
        is_longest_fitting_prefix(s, k1, limit),
        is_longest_fitting_prefix(s, k2, limit),
    ensures
        k1 == k2,
{
    if k1 < k2 {
        lemma_utf8_len_take_monotone(s, k1 + 1, k2);
    } else if k2 < k1 {
        lemma_utf8_len_take_monotone(s, k2 + 1, k1);
    }
}

/// Every text has a longest prefix that fits in a non-negative limit.
pub proof fn lemma_longest_fitting_prefix_exists(s: Seq<char>, limit: int)
    requires
        limit >= 0,
    ensures
        exists|k: int| is_longest_fitting_prefix(s, k, limit),
{
    assert(s.take(0) =~= Seq::<char>::empty());
    lemma_longest_fitting_prefix_from(s, limit, 0);
}

proof fn lemma_longest_fitting_prefix_from(s: Seq<char>, limit: int, k: int)
    requires
        0 <= k <= s.len(),
        utf8_len(s.take(k)) <= limit,
    ensures
        exists|j: int| is_longest_fitting_prefix(s, j, limit),
    decreases s.len() - k,
{
    if k == s.len() || utf8_len(s.take(k + 1)) > limit {
        assert(is_longest_fitting_prefix(s, k, limit));
    } else {
        lemma_longest_fitting_prefix_from(s, limit, k + 1);
    }
}

/// Length of the longest prefix of `v` that fits in `limit` UTF-8 bytes,
/// together with that prefix's byte length.
pub fn longest_fitting_prefix(v: &Vec<char>, limit: usize) -> (res: (usize, usize))
    ensures
        is_longest_fitting_prefix(v@, res.0 as int, limit as int),
        res.1 == utf8_len(v@.take(res.0 as int)),
{
    let mut k: usize = 0;
    let mut bytes: usize = 0;
    assert(v@.take(0) =~= Seq::<char>::empty());
    while k < v.len()
        invariant
            k <= v@.len(),
            bytes == utf8_len(v@.take(k as int)),
            bytes <= limit,
        decreases v.len() - k,
    {
        let n = char_len_utf8(v[k]);
        proof {
            lemma_utf8_len_take_step(v@, k as int);
        }
        if n > limit - bytes {
            return (k, bytes);
        }
        bytes = bytes + n;
        k = k + 1;
    }
    (k, bytes)
}


/// `p` occurs in `s` at position `i`.
pub open spec fn occurs_at(s: Seq<char>, p: Seq<char>, i: int) -> bool {
    0 <= i && i + p.len() <= s.len() && s.subrange(i, i + p.len()) == p
}

/// `p` occurs somewhere in `s`.
pub open spec fn contains_seq(s: Seq<char>, p: Seq<char>) -> bool {
    exists|i: int| #[trigger] occurs_at(s, p, i)
}

/// The characters `v[lo..hi]` as a new vector.
pub fn subvec(v: &Vec<char>, lo: usize, hi: usize) -> (r: Vec<char>)
    requires
        lo <= hi <= v@.len(),
    ensures
        r@ == v@.subrange(lo as int, hi as int),
{
    let mut r: Vec<char> = Vec::new();
    let mut i = lo;
    while i < hi
        invariant
            lo <= i <= hi <= v@.len(),
            r@ == v@.subrange(lo as int, i as int),
        decreases hi - i,
    {
        r.push(v[i]);
        assert(v@.subrange(lo as int, i as int).push(v@[i as int]) =~= v@.subrange(
            lo as int,
            i + 1,
        ));
        i = i + 1;
    }
    r
}

/// Whether `p` occurs in `v` at position `i`.
pub fn occurs_at_exec(v: &Vec<char>, p: &Vec<char>, i: usize) -> (b: bool)
    ensures
        b == occurs_at(v@, p@, i as int),
{
    if i > v.len() || p.len() > v.len() - i {
        return false;
    }
    let n = v.len();
    let mut j: usize = 0;
    while j < p.len()
        invariant
            n == v@.len(),
            i + p@.len() <= n,
            j <= p@.len(),
            forall|t: int| 0 <= t < j ==> v@[i + t] == p@[t],
        decreases p.len() - j,
    {
        assert(i + j < v@.len());
        if v[i + j] != p[j] {
            assert(v@.subrange(i as int, i + p@.len())[j as int] != p@[j as int]);
            return false;
        }
        j = j + 1;
    }
    assert(v@.subrange(i as int, i + p@.len()) =~= p@);
    true
}

/// A copy of a character vector.
pub fn copy_chars(v: &Vec<char>) -> (r: Vec<char>)
    ensures
        r@ == v@,
{
    let r = subvec(v, 0, v.len());
    assert(v@.subrange(0, v@.len() as int) =~= v@);
    r
}

/// Whether two character vectors are equal.
pub fn vec_eq(a: &Vec<char>, b: &Vec<char>) -> (r: bool)
    ensures
        r == (a@ == b@),
{
    if a.len() != b.len() {
        return false;
    }
    let r = occurs_at_exec(a, b, 0);
    proof {
        if r {
            assert(a@.subrange(0, b@.len() as int) =~= a@);
        } else {
            assert(a@.subrange(0, b@.len() as int) =~= a@);
        }
    }
    r
}

/// Whether `p` is a prefix of `v`.
pub fn vec_starts_with(v: &Vec<char>, p: &Vec<char>) -> (r: bool)
    ensures
        r == p@.is_prefix_of(v@),
{
    occurs_at_exec(v, p, 0)
}

/// Whether `p` is a suffix of `v`.
pub fn vec_ends_with(v: &Vec<char>, p: &Vec<char>) -> (r: bool)
    ensures
        r == p@.is_suffix_of(v@),
{
    if p.len() > v.len() {
        return false;
    }
    occurs_at_exec(v, p, v.len() - p.len())
}

/// Whether `p` occurs anywhere in `v`.
pub fn vec_contains(v: &Vec<char>, p: &Vec<char>) -> (r: bool)
    ensures
        r == contains_seq(v@, p@),
{
    if p.len() > v.len() {
        assert(forall|i: int| !#[trigger] occurs_at(v@, p@, i));
        return false;
    }
    let last = v.len() - p.len();
    let mut i: usize = 0;
    loop
        invariant
            p@.len() <= v@.len(),
            last == v@.len() - p@.len(),
            i <= last,
            forall|t: int| 0 <= t < i ==> !#[trigger] occurs_at(v@, p@, t),
        ensures
            forall|t: int| 0 <= t <= last ==> !#[trigger] occurs_at(v@, p@, t),
        decreases last - i,
    {
        if occurs_at_exec(v, p, i) {
            return true;
        }
        if i == last {
            break;
        }
        i = i + 1;
    }
    assert(forall|t: int| !#[trigger] occurs_at(v@, p@, t));
    false
}

/// Whether the character `c` occurs in `v`.
pub fn vec_has_char(v: &Vec<char>, c: char) -> (r: bool)
    ensures
        r == v@.contains(c),
{
    let mut i: usize = 0;
    while i < v.len()
        invariant
            i <= v@.len(),
            forall|t: int| 0 <= t < i ==> v@[t] != c,
        decreases v.len() - i,
    {
        if v[i] == c {
            return true;
        }
        i = i + 1;
    }
    false
}

/// Index of the first occurrence of `c` in `v`.
pub fn first_index_of(v: &Vec<char>, c: char) -> (r: Option<usize>)
    ensures
        match r {
            Some(i) => i < v@.len() && v@[i as int] == c && forall|t: int|
                0 <= t < i ==> v@[t] != c,
            None => !v@.contains(c),
        },
{
    let mut i: usize = 0;
    while i < v.len()
        invariant
            i <= v@.len(),
            forall|t: int| 0 <= t < i ==> v@[t] != c,
        decreases v.len() - i,
    {
        if v[i] == c {
            return Some(i);
        }
        i = i + 1;
    }
    None
}

/// Index of the last occurrence of `c` in `v`.
pub fn last_index_of(v: &Vec<char>, c: char) -> (r: Option<usize>)
    ensures
        match r {
            Some(i) => i < v@.len() && v@[i as int] == c && forall|t: int|
                i < t < v@.len() ==> v@[t] != c,
            None => !v@.contains(c),
        },
{
    let mut i: usize = v.len();
    while i > 0
        invariant
            i <= v@.len(),
            forall|t: int| i <= t < v@.len() ==> v@[t] != c,
        decreases i,
    {
        if v[i - 1] == c {
            return Some(i - 1);
        }
        i = i - 1;
    }
    None
}

/// String-slice equality.
pub fn str_eq(a: &str, b: &str) -> (r: bool)
    ensures
        r == (a@ == b@),
{
    let va = chars_of(a);
    let vb = chars_of(b);
    vec_eq(&va, &vb)
}

/// Whether `s` starts with `p`.
pub fn str_starts_with(s: &str, p: &str) -> (r: bool)
    ensures
        r == p@.is_prefix_of(s@),
{
    let vs = chars_of(s);
    let vp = chars_of(p);
    vec_starts_with(&vs, &vp)
}

/// Whether `s` ends with `p`.
pub fn str_ends_with(s: &str, p: &str) -> (r: bool)
    ensures
        r == p@.is_suffix_of(s@),
{
    let vs = chars_of(s);
    let vp = chars_of(p);
    vec_ends_with(&vs, &vp)
}

/// Whether `p` occurs in `s`.
pub fn str_contains(s: &str, p: &str) -> (r: bool)
    ensures
        r == contains_seq(s@, p@),
{
    let vs = chars_of(s);
    let vp = chars_of(p);
    vec_contains(&vs, &vp)
}

/// The ASCII digit for a value below ten.
pub open spec fn digit_char(d: nat) -> char {
    ((d + 48) as u32) as char
}

/// Decimal representation of a natural number, without sign or leading zeros.
pub open spec fn decimal(n: nat) -> Seq<char>
    decreases n,
{
    if n < 10 {
        seq![digit_char(n)]
    } else {
        decimal(n / 10).push(digit_char(n % 10))
    }
}

/// Decimal representation of an unsigned integer (as `u64`'s `Display`).
pub fn u64_to_decimal(n: u64) -> (r: String)
    ensures
        r@ == decimal(n as nat),
    decreases n,
{
    if n < 10 {
        let mut r = String::new();
        let d: u32 = (n as u32) + 48;
        let c = char_from_digit(d);
        push_char(&mut r, c);
        assert(r@ =~= seq![digit_char(n as nat)]);
        r
    } else {
        let mut r = u64_to_decimal(n / 10);
        let d: u32 = ((n % 10) as u32) + 48;
        let c = char_from_digit(d);
        push_char(&mut r, c);
        r
    }
}

/// The character for an ASCII digit code.
fn char_from_digit(d: u32) -> (c: char)
    requires
        48 <= d <= 57,
    ensures
        c == (d as char),
{
    if d == 48 { '0' }
    else if d == 49 { '1' }
    else if d == 50 { '2' }
    else if d == 51 { '3' }
    else if d == 52 { '4' }
    else if d == 53 { '5' }
    else if d == 54 { '6' }
    else if d == 55 { '7' }
    else if d == 56 { '8' }
    else { '9' }
}


// ---------------------------------------------------------------------------
// Whitespace
// ---------------------------------------------------------------------------

/// A Unicode `White_Space` character, as `char::is_whitespace` decides.
pub open spec fn is_ws(c: char) -> bool {
    let n = c as u32;
    (0x9 <= n && n <= 0xd) || n == 0x20 || n == 0x85 || n == 0xa0 || n == 0x1680 || (0x2000 <= n
        && n <= 0x200a) || n == 0x2028 || n == 0x2029 || n == 0x202f || n == 0x205f || n == 0x3000
}

/// Whether a character is whitespace.
pub fn is_ws_exec(c: char) -> (r: bool)
    ensures
        r == is_ws(c),
{
    let n = c as u32;
    (0x9 <= n && n <= 0xd) || n == 0x20 || n == 0x85 || n == 0xa0 || n == 0x1680 || (0x2000 <= n
        && n <= 0x200a) || n == 0x2028 || n == 0x2029 || n == 0x202f || n == 0x205f || n == 0x3000
}

/// The number of leading whitespace characters.
pub open spec fn leading_ws(s: Seq<char>) -> nat
    decreases s.len(),
{
    if s.len() > 0 && is_ws(s[0]) {
        1 + leading_ws(s.drop_first())
    } else {
        0
    }
}

/// The number of trailing whitespace characters.
pub open spec fn trailing_ws(s: Seq<char>) -> nat
    decreases s.len(),
{
    if s.len() > 0 && is_ws(s.last()) {
        1 + trailing_ws(s.drop_last())
    } else {
        0
    }
}

/// `s` without leading whitespace (`str::trim_start`).
pub open spec fn trim_start(s: Seq<char>) -> Seq<char> {
    s.skip(leading_ws(s) as int)
}

/// `s` without trailing whitespace (`str::trim_end`).
pub open spec fn trim_end(s: Seq<char>) -> Seq<char> {
    s.take(s.len() - trailing_ws(s))
}

/// `s` without leading and trailing whitespace (`str::trim`).
pub open spec fn trim(s: Seq<char>) -> Seq<char> {
    trim_end(trim_start(s))
}

proof fn lemma_leading_ws(s: Seq<char>)
    ensures
        leading_ws(s) <= s.len(),
        forall|i: int| 0 <= i < leading_ws(s) ==> is_ws(#[trigger] s[i]),
        leading_ws(s) < s.len() ==> !is_ws(s[leading_ws(s) as int]),
    decreases s.len(),
{
    if s.len() > 0 && is_ws(s[0]) {
        lemma_leading_ws(s.drop_first());
        assert forall|i: int| 0 <= i < leading_ws(s) implies is_ws(#[trigger] s[i]) by {
            if i > 0 {
                assert(s[i] == s.drop_first()[i - 1]);
            }
        }
    }
}

proof fn lemma_trailing_ws(s: Seq<char>)
    ensures
        trailing_ws(s) <= s.len(),
        forall|i: int| s.len() - trailing_ws(s) <= i < s.len() ==> is_ws(#[trigger] s[i]),
        trailing_ws(s) < s.len() ==> !is_ws(s[s.len() - trailing_ws(s) - 1]),
    decreases s.len(),
{
    if s.len() > 0 && is_ws(s.last()) {
        lemma_trailing_ws(s.drop_last());
        assert forall|i: int| s.len() - trailing_ws(s) <= i < s.len() implies is_ws(
            #[trigger] s[i],
        ) by {
            if i < s.len() - 1 {
                assert(s[i] == s.drop_last()[i]);
            }
        }
    }
}

pub proof fn lemma_leading_ws_unique(s: Seq<char>, k: int)
    requires
        0 <= k <= s.len(),
        forall|i: int| 0 <= i < k ==> is_ws(#[trigger] s[i]),
        k < s.len() ==> !is_ws(s[k]),
    ensures
        leading_ws(s) == k,
    decreases k,
{
    if k > 0 {
        let t = s.drop_first();
        assert forall|i: int| 0 <= i < k - 1 implies is_ws(#[trigger] t[i]) by {
            assert(t[i] == s[i + 1]);
        }
        if k - 1 < t.len() {
            assert(t[k - 1] == s[k]);
        }
        lemma_leading_ws_unique(t, k - 1);
    }
}

proof fn lemma_trailing_ws_unique(s: Seq<char>, k: int)
    requires
        0 <= k <= s.len(),
        forall|i: int| s.len() - k <= i < s.len() ==> is_ws(#[trigger] s[i]),
        k < s.len() ==> !is_ws(s[s.len() - k - 1]),
    ensures
        trailing_ws(s) == k,
    decreases k,
{
    if k > 0 {
        let t = s.drop_last();
        assert forall|i: int| t.len() - (k - 1) <= i < t.len() implies is_ws(#[trigger] t[i]) by {
            assert(t[i] == s[i]);
        }
        if k - 1 < t.len() {
            assert(t[t.len() - (k - 1) - 1] == s[s.len() - k - 1]);
        }
        lemma_trailing_ws_unique(t, k - 1);
    }
}

/// `v` without leading and trailing whitespace.
pub fn trim_chars(v: &Vec<char>) -> (r: Vec<char>)
    ensures
        r@ == trim(v@),
{
    let mut lo: usize = 0;
    while lo < v.len() && is_ws_exec(v[lo])
        invariant
            lo <= v@.len(),
            forall|i: int| 0 <= i < lo ==> is_ws(#[trigger] v@[i]),
        decreases v.len() - lo,
    {
        lo = lo + 1;
    }
    proof {
        lemma_leading_ws_unique(v@, lo as int);
    }
    let mut hi: usize = v.len();
    while hi > lo && is_ws_exec(v[hi - 1])
        invariant
            lo <= hi <= v@.len(),
            forall|i: int| hi <= i < v@.len() ==> is_ws(#[trigger] v@[i]),
        decreases hi,
    {
        hi = hi - 1;
    }
    proof {
        let t = v@.skip(lo as int);
        let k = (v@.len() - hi) as int;
        assert forall|i: int| t.len() - k <= i < t.len() implies is_ws(#[trigger] t[i]) by {
            assert(t[i] == v@[i + lo]);
        }
        if k < t.len() {
            assert(t[t.len() - k - 1] == v@[hi - 1]);
        }
        lemma_trailing_ws_unique(t, k);
        assert(trim(v@) =~= v@.subrange(lo as int, hi as int));
    }
    subvec(v, lo, hi)
}

/// The string without leading and trailing whitespace.
pub fn trim_str(s: &str) -> (r: String)
    ensures
        r@ == trim(s@),
{
    let v = chars_of(s);
    let t = trim_chars(&v);
    string_from_chars(&t)
}

/// The views of a sequence of character vectors.
pub open spec fn views(r: Seq<Vec<char>>) -> Seq<Seq<char>> {
    Seq::new(r.len(), |i: int| r[i]@)
}

/// The pieces of `s` between occurrences of the separator `c`, as `str::split`
/// yields them (an empty input gives one empty piece).
pub open spec fn split_on(s: Seq<char>, c: char) -> Seq<Seq<char>>
    decreases s.len(),
{
    if s.len() == 0 {
        seq![Seq::<char>::empty()]
    } else if s.last() == c {
        split_on(s.drop_last(), c).push(Seq::<char>::empty())
    } else {
        let t = split_on(s.drop_last(), c);
        t.update(t.len() - 1, t.last().push(s.last()))
    }
}

/// `split_on` always yields at least one piece.
pub proof fn lemma_split_on_nonempty(s: Seq<char>, c: char)
    ensures
        split_on(s, c).len() >= 1,
    decreases s.len(),
{
    if s.len() > 0 {
        lemma_split_on_nonempty(s.drop_last(), c);
    }
}

/// Splits `v` at every occurrence of `c`.
pub fn split_chars(v: &Vec<char>, c: char) -> (r: Vec<Vec<char>>)
    ensures
        views(r@) == split_on(v@, c),
{
    let mut out: Vec<Vec<char>> = Vec::new();
    let mut cur: Vec<char> = Vec::new();
    let mut i: usize = 0;
    assert(v@.take(0) =~= Seq::<char>::empty());
    assert(views(out@).push(cur@) =~= split_on(v@.take(0), c));
    while i < v.len()
        invariant
            i <= v@.len(),
            views(out@).push(cur@) == split_on(v@.take(i as int), c),
        decreases v.len() - i,
    {
        let x = v[i];
        let ghost prev = split_on(v@.take(i as int), c);
        assert(v@.take(i + 1).drop_last() =~= v@.take(i as int));
        assert(v@.take(i + 1).last() == x);
        if x == c {
            out.push(cur);
            cur = Vec::new();
            assert(views(out@).push(cur@) =~= prev.push(Seq::<char>::empty()));
        } else {
            let ghost old_cur = cur@;
            cur.push(x);
            assert(views(out@).push(cur@) =~= prev.update(prev.len() - 1, prev.last().push(x)));
        }
        i = i + 1;
    }
    out.push(cur);
    assert(v@.take(v@.len() as int) =~= v@);
    assert(views(out@) =~= split_on(v@, c));
    out
}


/// `a` followed by `b`.
pub fn concat2(a: &str, b: &str) -> (r: String)
    ensures
        r@ == a@ + b@,
{
    let mut r = to_owned_string(a);
    push_str_chars(&mut r, b);
    r
}

/// `a`, `b` and `c` in sequence.
pub fn concat3(a: &str, b: &str, c: &str) -> (r: String)
    ensures
        r@ == a@ + b@ + c@,
{
    let mut r = concat2(a, b);
    push_str_chars(&mut r, c);
    r
}

/// `a` to `e` in sequence.
pub fn concat5(a: &str, b: &str, c: &str, d: &str, e: &str) -> (r: String)
    ensures
        r@ == a@ + b@ + c@ + d@ + e@,
{
    let mut r = concat3(a, b, c);
    push_str_chars(&mut r, d);
    push_str_chars(&mut r, e);
    r
}


/// `utf8_len` is the length of vstd's UTF-8 encoding, so it agrees with the
/// byte length that `str::len` reports.
pub proof fn lemma_utf8_len_is_encoded_len(s: Seq<char>)
    ensures
        vstd::utf8::encode_utf8(s).len() == utf8_len(s),
    decreases s.len(),
{
    if s.len() > 0 {
        vstd::utf8::char_is_scalar(s[0]);
        lemma_utf8_len_is_encoded_len(s.drop_first());
        assert(s =~= seq![s[0]] + s.drop_first());
        lemma_utf8_len_concat(seq![s[0]], s.drop_first());
        assert(seq![s[0]].drop_last() =~= Seq::<char>::empty());
        assert(utf8_len(seq![s[0]]) == char_utf8_len(s[0])) by {
            reveal_with_fuel(utf8_len, 2);
        }
    }
}

/// Byte length of a string slice, as `str::len` (the length must fit in
/// `usize`, as it always does for a string in memory).
pub fn byte_len(s: &str) -> (n: usize)
    requires
        utf8_len(s@) <= usize::MAX,
    ensures
        n == utf8_len(s@),
{
    proof {
        lemma_utf8_len_is_encoded_len(s@);
    }
    s.len()
}


/// Position of the last occurrence of `c` in `s`.
pub open spec fn rfind(s: Seq<char>, c: char) -> Option<int>
    decreases s.len(),
{
    if s.len() == 0 {
        None
    } else if s.last() == c {
        Some(s.len() - 1)
    } else {
        rfind(s.drop_last(), c)
    }
}

/// Position of the first occurrence of `c` in `s`.
pub open spec fn find(s: Seq<char>, c: char) -> Option<int>
    decreases s.len(),
{
    if s.len() == 0 {
        None
    } else if s[0] == c {
        Some(0)
    } else {
        match find(s.drop_first(), c) {
            Some(i) => Some(i + 1),
            None => None,
        }
    }
}

/// `rfind` is the last occurrence.
pub proof fn lemma_rfind(s: Seq<char>, c: char)
    ensures
        match rfind(s, c) {
            Some(i) => 0 <= i < s.len() && s[i] == c && forall|t: int| i < t < s.len() ==> s[t] != c,
            None => !s.contains(c),
        },
    decreases s.len(),
{
    if s.len() > 0 && s.last() != c {
        lemma_rfind(s.drop_last(), c);
        if rfind(s, c) is None {
            assert forall|t: int| 0 <= t < s.len() implies s[t] != c by {
                if t < s.len() - 1 {
                    assert(s.drop_last()[t] == s[t]);
                }
            }
        } else {
            let i = rfind(s, c)->0;
            assert(s.drop_last()[i] == s[i]);
            assert forall|t: int| i < t < s.len() implies s[t] != c by {
                if t < s.len() - 1 {
                    assert(s.drop_last()[t] == s[t]);
                }
            }
        }
    }
}

/// `find` is the first occurrence.
pub proof fn lemma_find(s: Seq<char>, c: char)
    ensures
        match find(s, c) {
            Some(i) => 0 <= i < s.len() && s[i] == c && forall|t: int| 0 <= t < i ==> s[t] != c,
            None => !s.contains(c),
        },
    decreases s.len(),
{
    if s.len() > 0 && s[0] != c {
        lemma_find(s.drop_first(), c);
        if find(s, c) is None {
            assert forall|t: int| 0 <= t < s.len() implies s[t] != c by {
                if t > 0 {
                    assert(s.drop_first()[t - 1] == s[t]);
                }
            }
        } else {
            let i = find(s, c)->0;
            assert forall|t: int| 0 <= t < i implies s[t] != c by {
                if t > 0 {
                    assert(s.drop_first()[t - 1] == s[t]);
                }
            }
        }
    }
}

/// The last occurrence of `c` in `v`, as `rfind`.
pub fn rfind_exec(v: &Vec<char>, c: char) -> (r: Option<usize>)
    ensures
        match r {
            Some(i) => rfind(v@, c) == Some(i as int),
            None => rfind(v@, c) is None,
        },
{
    proof {
        lemma_rfind(v@, c);
    }
    let r = last_index_of(v, c);
    proof {
        match rfind(v@, c) {
            Some(i) => {
                match r {
                    Some(j) => {
                        if (j as int) < i {
                            assert(v@[i] != c);
                        }
                        if i < (j as int) {
                            assert(v@[j as int] != c);
                        }
                    },
                    None => {
                        assert(v@.contains(c)) by {
                            assert(v@[i] == c);
                        }
                    },
                }
            },
            None => {
                if let Some(j) = r {
                    assert(v@.contains(c)) by {
                        assert(v@[j as int] == c);
                    }
                }
            },
        }
    }
    r
}

/// The first occurrence of `c` in `v`, as `find`.
pub fn find_exec(v: &Vec<char>, c: char) -> (r: Option<usize>)
    ensures
        match r {
            Some(i) => find(v@, c) == Some(i as int),
            None => find(v@, c) is None,
        },
{
    proof {
        lemma_find(v@, c);
    }
    let r = first_index_of(v, c);
    proof {
        match find(v@, c) {
            Some(i) => {
                match r {
                    Some(j) => {
                        if (j as int) < i {
                            assert(v@[j as int] != c);
                        }
                        if i < (j as int) {
                            assert(v@[i] != c);
                        }
                    },
                    None => {
                        assert(v@.contains(c)) by {
                            assert(v@[i] == c);
                        }
                    },
                }
            },
            None => {
                if let Some(j) = r {
                    assert(v@.contains(c)) by {
                        assert(v@[j as int] == c);
                    }
                }
            },
        }
    }
    r
}


/// A copy of an optional string.
pub fn clone_opt_string(o: &Option<String>) -> (r: Option<String>)
    ensures
        r == *o,
{
    match o {
        Some(s) => Some(s.clone()),
        None => None,
    }
}

/// A copy of a list of strings.
pub fn clone_strings(v: &Vec<String>) -> (r: Vec<String>)
    ensures
        r@ == v@,
{
    let mut r: Vec<String> = Vec::new();
    let mut i: usize = 0;
    while i < v.len()
        invariant
            i <= v@.len(),
            r@ == v@.take(i as int),
        decreases v.len() - i,
    {
        r.push(v[i].clone());
        assert(v@.take(i as int).push(v@[i as int]) =~= v@.take(i + 1));
        i = i + 1;
    }
    assert(v@.take(v@.len() as int) =~= v@);
    r
}

/// The strings of an optional list (none when absent).
pub open spec fn opt_strings(o: Option<Vec<String>>) -> Seq<String> {
    match o {
        Some(v) => v@,
        None => Seq::empty(),
    }
}

/// A copy of an optional list of strings, empty when absent.
pub fn strings_or_empty(o: &Option<Vec<String>>) -> (r: Vec<String>)
    ensures
        r@ == opt_strings(*o),
{
    match o {
        Some(v) => clone_strings(v),
        None => Vec::new(),
    }
}


// ---------------------------------------------------------------------------
// Lexicographic order
// ---------------------------------------------------------------------------

/// `a` comes no later than `b` in lexicographic order by code point, the
/// order in which `str`'s `Ord` sorts (UTF-8 keeps code point order).
pub open spec fn lex_le(a: Seq<char>, b: Seq<char>) -> bool
    decreases a.len(),
{
    if a.len() == 0 {
        true
    } else if b.len() == 0 {
        false
    } else if a[0] == b[0] {
        lex_le(a.drop_first(), b.drop_first())
    } else {
        (a[0] as u32) < (b[0] as u32)
    }
}

/// Lexicographic order is total.
pub proof fn lemma_lex_le_total(a: Seq<char>, b: Seq<char>)
    ensures
        lex_le(a, b) || lex_le(b, a),
    decreases a.len(),
{
    if a.len() > 0 && b.len() > 0 {
        if a[0] == b[0] {
            lemma_lex_le_total(a.drop_first(), b.drop_first());
        } else {
            if (a[0] as u32) == (b[0] as u32) {
                vstd::utf8::char_u32_cast(a[0], a[0] as u32);
                vstd::utf8::char_u32_cast(b[0], b[0] as u32);
            }
        }
    }
}

/// Lexicographic order is transitive.
pub proof fn lemma_lex_le_transitive(a: Seq<char>, b: Seq<char>, c: Seq<char>)
    requires
        lex_le(a, b),
        lex_le(b, c),
    ensures
        lex_le(a, c),
    decreases a.len(),
{
    if a.len() > 0 && b.len() > 0 && c.len() > 0 {
        if a[0] == b[0] && b[0] == c[0] {
            lemma_lex_le_transitive(a.drop_first(), b.drop_first(), c.drop_first());
        } else if a[0] != c[0] {
            assert((a[0] as u32) < (c[0] as u32));
        } else {
            assert((a[0] as u32) == (c[0] as u32));
        }
    }
}

/// Lexicographic order is antisymmetric.
pub proof fn lemma_lex_le_antisymmetric(a: Seq<char>, b: Seq<char>)
    requires
        lex_le(a, b),
        lex_le(b, a),
    ensures
        a == b,
    decreases a.len(),
{
    if a.len() > 0 && b.len() > 0 {
        lemma_lex_le_antisymmetric(a.drop_first(), b.drop_first());
        assert(a =~= seq![a[0]] + a.drop_first());
        assert(b =~= seq![b[0]] + b.drop_first());
    }
}

/// Whether `a` comes no later than `b` in lexicographic order.
pub fn str_le(a: &str, b: &str) -> (r: bool)
    ensures
        r == lex_le(a@, b@),
{
    let x = chars_of(a);
    let y = chars_of(b);
    let mut i: usize = 0;
    assert(a@.skip(0) =~= a@);
    assert(b@.skip(0) =~= b@);
    while i < x.len() && i < y.len()
        invariant
            x@ == a@,
            y@ == b@,
            i <= x@.len(),
            i <= y@.len(),
            forall|k: int| 0 <= k < i ==> x@[k] == y@[k],
            lex_le(a@, b@) == lex_le(a@.skip(i as int), b@.skip(i as int)),
        decreases x.len() - i,
    {
        proof {
            assert(a@.skip(i as int)[0] == x@[i as int]);
            assert(b@.skip(i as int)[0] == y@[i as int]);
            assert(a@.skip(i as int).drop_first() =~= a@.skip(i + 1));
            assert(b@.skip(i as int).drop_first() =~= b@.skip(i + 1));
        }
        if x[i] != y[i] {
            return (x[i] as u32) < (y[i] as u32);
        }
        i = i + 1;
    }
    proof {
        if i == x@.len() {
            assert(a@.skip(i as int).len() == 0);
        } else {
            assert(b@.skip(i as int).len() == 0);
        }
    }
    i == x.len()
}


// ---------------------------------------------------------------------------
// Shell quoting
// ---------------------------------------------------------------------------

/// `s` single-quoted for a POSIX shell: each `'` becomes `'\''`.
pub open spec fn quoted_body(s: Seq<char>) -> Seq<char>
    decreases s.len(),
{
    if s.len() == 0 {
        Seq::empty()
    } else {
        quoted_body(s.drop_last()) + if s.last() == '\'' {
            seq!['\'', '\\', '\'', '\'']
        } else {
            seq![s.last()]
        }
    }
}

/// `s` as one shell word, in single quotes.
pub open spec fn shell_quoted(s: Seq<char>) -> Seq<char> {
    seq!['\''] + quoted_body(s) + seq!['\'']
}

/// `s` as one single-quoted shell word.
pub fn shell_quote(s: &str) -> (r: String)
    ensures
        r@ == shell_quoted(s@),
{
    let v = chars_of(s);
    let mut r = String::new();
    push_char(&mut r, '\'');
    let ghost start = r@;
    let mut i: usize = 0;
    while i < v.len()
        invariant
            i <= v@.len(),
            v@ == s@,
            start == seq!['\''],
            r@ == start + quoted_body(v@.take(i as int)),
        decreases v.len() - i,
    {
        proof {
            let t = v@.take(i + 1);
            assert(t.drop_last() =~= v@.take(i as int));
            assert(t.last() == v@[i as int]);
        }
        let ghost before = r@;
        if v[i] == '\'' {
            push_char(&mut r, '\'');
            push_char(&mut r, '\\');
            push_char(&mut r, '\'');
            push_char(&mut r, '\'');
            assert(r@ =~= before + seq!['\'', '\\', '\'', '\'']);
        } else {
            push_char(&mut r, v[i]);
            assert(r@ =~= before + seq![v@[i as int]]);
        }
        assert(r@ =~= start + quoted_body(v@.take(i + 1)));
        i = i + 1;
    }
    assert(v@.take(i as int) =~= s@);
    let ghost before = r@;
    push_char(&mut r, '\'');
    assert(r@ =~= shell_quoted(s@));
    r
}

} // verus!

//! Editing OpenSSH config files: the managed `Host` block of a sandbox and
//! the `Include` line that pulls the managed file into the user's config.
//!
//! Files are handled as lists of lines (as `str::lines` reads them) and
//! written back joined by newlines, with a final newline when not empty.

use vstd::prelude::*;
use crate::text::{
    chars_of, concat2, concat3, copy_chars, is_ws, is_ws_exec, push_char, push_chars, split_chars,
    split_on, string_from_chars, subvec, trim, trim_chars, trim_start, vec_eq, vec_starts_with,
    views,
};

verus! {

// ---------------------------------------------------------------------------
// Lines and words
// ---------------------------------------------------------------------------

/// A line without one trailing carriage return.
pub open spec fn strip_cr(l: Seq<char>) -> Seq<char> {
    if l.len() > 0 && l.last() == '\r' {
        l.drop_last()
    } else {
        l
    }
}

/// The lines of a text, as `str::lines` yields them: split at `\n`, each
/// terminated line without a trailing `\r`, no line after a final `\n`, and
/// none at all for the empty text.
pub open spec fn lines_of(s: Seq<char>) -> Seq<Seq<char>> {
    let p = split_on(s, '\n');
    let n: int = if s.len() == 0 || s.last() == '\n' {
        p.len() - 1
    } else {
        p.len() as int
    };
    Seq::new(n as nat, |i: int| if i < p.len() - 1 {
        strip_cr(p[i])
    } else {
        p[i]
    })
}

fn strip_cr_exec(l: &Vec<char>) -> (r: Vec<char>)
    ensures
        r@ == strip_cr(l@),
{
    if l.len() > 0 && l[l.len() - 1] == '\r' {
        subvec(l, 0, l.len() - 1)
    } else {
        subvec(l, 0, l.len())
    }
}

/// The lines of a text.
pub fn lines(s: &str) -> (r: Vec<Vec<char>>)
    ensures
        views(r@) == lines_of(s@),
{
    let v = chars_of(s);
    let p = split_chars(&v, '\n');
    proof {
        crate::text::lemma_split_on_nonempty(v@, '\n');
    }
    let n: usize = if v.len() == 0 || v[v.len() - 1] == '\n' {
        p.len() - 1
    } else {
        p.len()
    };
    let mut r: Vec<Vec<char>> = Vec::new();
    let mut i: usize = 0;
    while i < n
        invariant
            i <= n <= p@.len(),
            p@.len() >= 1,
            views(p@) == split_on(v@, '\n'),
            v@ == s@,
            n == (if s@.len() == 0 || s@.last() == '\n' {
                p@.len() - 1
            } else {
                p@.len() as int
            }),
            views(r@) == lines_of(s@).take(i as int),
        decreases n - i,
    {
        let l = if i < p.len() - 1 {
            strip_cr_exec(&p[i])
        } else {
            copy_chars(&p[i])
        };
        proof {
            assert(views(p@)[i as int] == p@[i as int]@);
            assert(l@ == lines_of(s@)[i as int]);
        }
        let ghost before = r@;
        r.push(l);
        proof {
            assert(views(r@) =~= views(before).push(l@));
            assert(lines_of(s@).take(i + 1) =~= lines_of(s@).take(i as int).push(lines_of(s@)[i as int]));
        }
        i = i + 1;
    }
    assert(lines_of(s@).take(n as int) =~= lines_of(s@));
    r
}

/// The lines joined by newlines, with a final newline unless the result is
/// empty.
pub open spec fn rendered(ls: Seq<Seq<char>>) -> Seq<char> {
    let j = joined(ls);
    if j.len() == 0 {
        j
    } else {
        j.push('\n')
    }
}

/// The lines joined by newlines.
pub open spec fn joined(ls: Seq<Seq<char>>) -> Seq<char>
    decreases ls.len(),
{
    if ls.len() == 0 {
        Seq::empty()
    } else if ls.len() == 1 {
        ls[0]
    } else {
        joined(ls.drop_last()).push('\n') + ls.last()
    }
}

/// Join lines by newlines, ending with a newline unless empty.
pub fn render(ls: &Vec<Vec<char>>) -> (r: String)
    ensures
        r@ == rendered(views(ls@)),
{
    let mut r = String::new();
    let mut i: usize = 0;
    while i < ls.len()
        invariant
            i <= ls@.len(),
            r@ == joined(views(ls@).take(i as int)),
        decreases ls.len() - i,
    {
        if i > 0 {
            push_char(&mut r, '\n');
        }
        push_chars(&mut r, &ls[i]);
        proof {
            let t = views(ls@).take(i + 1);
            assert(t.drop_last() =~= views(ls@).take(i as int));
            assert(t.last() == ls@[i as int]@);
            if i == 0 {
                assert(views(ls@).take(0) =~= Seq::<Seq<char>>::empty());
            }
        }
        i = i + 1;
    }
    assert(views(ls@).take(i as int) =~= views(ls@));
    let rc = chars_of(r.as_str());
    if rc.len() > 0 {
        push_char(&mut r, '\n');
    }
    r
}

/// The whitespace-separated words of a text (`str::split_whitespace`).
pub open spec fn words(s: Seq<char>) -> Seq<Seq<char>>
    decreases s.len(),
{
    if s.len() == 0 {
        Seq::empty()
    } else {
        let w = words(s.drop_last());
        if is_ws(s.last()) {
            w
        } else if s.len() >= 2 && !is_ws(s[s.len() - 2]) {
            w.update(w.len() - 1, w.last().push(s.last()))
        } else {
            w.push(seq![s.last()])
        }
    }
}

proof fn lemma_words_nonempty(s: Seq<char>)
    requires
        s.len() > 0,
        !is_ws(s.last()),
    ensures
        words(s).len() >= 1,
    decreases s.len(),
{
    if s.len() >= 2 && !is_ws(s[s.len() - 2]) {
        assert(s.drop_last().last() == s[s.len() - 2]);
        lemma_words_nonempty(s.drop_last());
    }
}

/// The whitespace-separated words of `v`, in order.
pub fn split_words(v: &Vec<char>) -> (ws: Vec<Vec<char>>)
    ensures
        views(ws@) == words(v@),
{
    let mut ws: Vec<Vec<char>> = Vec::new();
    let mut i: usize = 0;
    assert(v@.take(0) =~= Seq::<char>::empty());
    while i < v.len()
        invariant
            i <= v@.len(),
            views(ws@) == words(v@.take(i as int)),
        decreases v.len() - i,
    {
        let c = v[i];
        let ghost t = v@.take(i + 1);
        proof {
            assert(t.drop_last() =~= v@.take(i as int));
            assert(t.last() == c);
        }
        if is_ws_exec(c) {
        } else if i >= 1 && !is_ws_exec(v[i - 1]) {
            proof {
                assert(t[t.len() - 2] == v@[i - 1]);
                assert(v@.take(i as int).last() == v@[i - 1]);
                lemma_words_nonempty(v@.take(i as int));
            }
            let k = ws.len() - 1;
            let ghost before = views(ws@);
            let mut last = copy_chars(&ws[k]);
            last.push(c);
            ws.set(k, last);
            proof {
                assert(!is_ws(t.last()));
                assert(t.len() >= 2 && !is_ws(t[t.len() - 2]));
                assert(before.last() == ws@[k as int]@.drop_last());
                assert(views(ws@) =~= before.update(before.len() - 1, before.last().push(c)));
            }
        } else {
            let ghost before = views(ws@);
            let mut w: Vec<char> = Vec::new();
            w.push(c);
            ws.push(w);
            proof {
                assert(!is_ws(t.last()));
                assert(views(ws@) =~= before.push(seq![c]));
            }
        }
        i = i + 1;
    }
    assert(v@.take(i as int) =~= v@);
    ws
}

/// Whether one of the whitespace-separated words of `v` equals `word`.
pub fn has_word(v: &Vec<char>, word: &Vec<char>) -> (r: bool)
    ensures
        r == words(v@).contains(word@),
{
    let ws = split_words(v);
    let mut j: usize = 0;
    while j < ws.len()
        invariant
            j <= ws@.len(),
            views(ws@) == words(v@),
            forall|k: int| 0 <= k < j ==> views(ws@)[k] != word@,
        decreases ws.len() - j,
    {
        if vec_eq(&ws[j], word) {
            assert(views(ws@)[j as int] == word@);
            return true;
        }
        j = j + 1;
    }
    false
}

// ---------------------------------------------------------------------------
// Host blocks
// ---------------------------------------------------------------------------

/// The SSH host alias of a sandbox: `openshell-<name>`.
pub fn host_alias(name: &str) -> (r: String)
    ensures
        r@ == "openshell-"@ + name@,
{
    concat2("openshell-", name)
}

/// Whether a line opens a `Host` block (after leading whitespace).
pub open spec fn is_host_line(l: Seq<char>) -> bool {
    "Host "@.is_prefix_of(trim_start(l))
}

/// Whether a line is a `Host` line that names `alias` among its patterns.
pub open spec fn host_line_names(l: Seq<char>, alias: Seq<char>) -> bool {
    is_host_line(l) && words(trim_start(l).skip(5)).contains(alias)
}

fn trim_start_exec(v: &Vec<char>) -> (r: Vec<char>)
    ensures
        r@ == trim_start(v@),
{
    let mut lo: usize = 0;
    while lo < v.len() && is_ws_exec(v[lo])
        invariant
            lo <= v@.len(),
            forall|i: int| 0 <= i < lo ==> is_ws(#[trigger] v@[i]),
        decreases v.len() - lo,
    {
        lo = lo + 1;
    }
    proof {
        crate::text::lemma_leading_ws_unique(v@, lo as int);
    }
    subvec(v, lo, v.len())
}

fn starts_with_host(v: &Vec<char>) -> (r: bool)
    ensures
        r == is_host_line(v@),
{
    let t = trim_start_exec(v);
    let p = chars_of("Host ");
    vec_starts_with(&t, &p)
}

/// Whether a config line is a `Host` line naming `alias`.
pub fn host_line_matches(line: &Vec<char>, alias: &str) -> (r: bool)
    ensures
        r == host_line_names(line@, alias@),
{
    if !starts_with_host(line) {
        return false;
    }
    let t = trim_start_exec(line);
    proof {
        reveal_strlit("Host ");
    }
    let rest = subvec(&t, 5, t.len());
    assert(rest@ =~= trim_start(line@).skip(5));
    let a = chars_of(alias);
    has_word(&rest, &a)
}

/// The index of the first line that is a `Host` line naming `alias`.
pub open spec fn first_host_index(ls: Seq<Seq<char>>, alias: Seq<char>) -> Option<int>
    decreases ls.len(),
{
    if ls.len() == 0 {
        None
    } else {
        match first_host_index(ls.drop_last(), alias) {
            Some(i) => Some(i),
            None => if host_line_names(ls.last(), alias) {
                Some(ls.len() - 1)
            } else {
                None
            },
        }
    }
}

/// The index of the first `Host` line at or after `from`, or the end.
pub open spec fn next_host_line(ls: Seq<Seq<char>>, from: int) -> int
    decreases ls.len() - from,
{
    if from >= ls.len() {
        ls.len() as int
    } else if is_host_line(ls[from]) {
        from
    } else {
        next_host_line(ls, from + 1)
    }
}

/// `out` with an empty separator line appended when its last line is not
/// empty.
pub open spec fn with_separator(out: Seq<Seq<char>>) -> Seq<Seq<char>> {
    if out.len() > 0 && out.last().len() > 0 {
        out.push(Seq::empty())
    } else {
        out
    }
}

/// The lines of a config after putting `block` in place of the block of
/// `alias` (from its `Host` line to the next `Host` line), or after the
/// existing lines when there is none; blocks stay separated by an empty
/// line.
pub open spec fn upserted_lines(ls: Seq<Seq<char>>, alias: Seq<char>, block: Seq<Seq<char>>) -> Seq<
    Seq<char>,
> {
    match first_host_index(ls, alias) {
        Some(start) => {
            let end = next_host_line(ls, start + 1);
            let head = with_separator(ls.take(start)) + block;
            let sep: Seq<Seq<char>> = if end < ls.len() && ls[end].len() > 0 {
                seq![Seq::<char>::empty()]
            } else {
                Seq::empty()
            };
            head + sep + ls.skip(end)
        },
        None => with_separator(ls) + block,
    }
}

proof fn lemma_first_host_index(ls: Seq<Seq<char>>, alias: Seq<char>)
    ensures
        first_host_index(ls, alias) matches Some(i) ==> 0 <= i < ls.len() && host_line_names(
            ls[i],
            alias,
        ) && forall|k: int| 0 <= k < i ==> !host_line_names(#[trigger] ls[k], alias),
        first_host_index(ls, alias) is None ==> forall|k: int|
            0 <= k < ls.len() ==> !host_line_names(#[trigger] ls[k], alias),
    decreases ls.len(),
{
    if ls.len() > 0 {
        let d = ls.drop_last();
        lemma_first_host_index(d, alias);
        assert forall|k: int| 0 <= k < d.len() implies d[k] == ls[k] by {}
        if first_host_index(d, alias) is None {
            assert forall|k: int| 0 <= k < ls.len() - 1 implies !host_line_names(
                #[trigger] ls[k],
                alias,
            ) by {
                assert(d[k] == ls[k]);
            }
        } else {
            let i = first_host_index(d, alias)->0;
            assert forall|k: int| 0 <= k < i implies !host_line_names(#[trigger] ls[k], alias) by {
                assert(d[k] == ls[k]);
            }
            assert(d[i] == ls[i]);
        }
    }
}

proof fn lemma_first_host_index_unique(ls: Seq<Seq<char>>, alias: Seq<char>, i: int)
    requires
        0 <= i < ls.len(),
        host_line_names(ls[i], alias),
        forall|k: int| 0 <= k < i ==> !host_line_names(#[trigger] ls[k], alias),
    ensures
        first_host_index(ls, alias) == Some(i),
    decreases ls.len(),
{
    if i < ls.len() - 1 {
        lemma_first_host_index_unique(ls.drop_last(), alias, i);
    } else {
        lemma_first_host_index(ls.drop_last(), alias);
    }
}

proof fn lemma_first_host_index_none(ls: Seq<Seq<char>>, alias: Seq<char>)
    requires
        forall|k: int| 0 <= k < ls.len() ==> !host_line_names(#[trigger] ls[k], alias),
    ensures
        first_host_index(ls, alias) is None,
    decreases ls.len(),
{
    if ls.len() > 0 {
        lemma_first_host_index_none(ls.drop_last(), alias);
    }
}

proof fn lemma_next_host_line(ls: Seq<Seq<char>>, from: int, k: int)
    requires
        0 <= from <= k <= ls.len(),
        forall|j: int| from <= j < k ==> !is_host_line(#[trigger] ls[j]),
        k == ls.len() || is_host_line(ls[k]),
    ensures
        next_host_line(ls, from) == k,
    decreases k - from,
{
    if from < k {
        lemma_next_host_line(ls, from + 1, k);
    }
}

fn push_separator(out: &mut Vec<Vec<char>>)
    ensures
        views(final(out)@) == with_separator(views(old(out)@)),
{
    if out.len() > 0 && out[out.len() - 1].len() > 0 {
        out.push(Vec::new());
        assert(views(out@) =~= views(old(out)@).push(Seq::<char>::empty()));
    }
}

fn push_all(out: &mut Vec<Vec<char>>, ls: &Vec<Vec<char>>, lo: usize, hi: usize)
    requires
        lo <= hi <= ls@.len(),
    ensures
        views(final(out)@) == views(old(out)@) + views(ls@).subrange(lo as int, hi as int),
{
    let mut i: usize = lo;
    while i < hi
        invariant
            lo <= i <= hi <= ls@.len(),
            views(out@) == views(old(out)@) + views(ls@).subrange(lo as int, i as int),
        decreases hi - i,
    {
        let ghost before = views(out@);
        let c = copy_chars(&ls[i]);
        out.push(c);
        assert(views(out@) =~= before.push(ls@[i as int]@));
        assert(views(ls@).subrange(lo as int, i + 1) =~= views(ls@).subrange(lo as int, i as int).push(ls@[i as int]@));
        i = i + 1;
    }
}

/// Put `block` into a config as the block of `alias`: replace the existing
/// block (from its `Host` line to the next `Host` line) in place, or append
/// it. Blocks stay separated by one empty line, and the result ends with a
/// newline unless it is empty.
pub fn upsert_host_block(contents: &str, alias: &str, block: &str) -> (r: String)
    ensures
        r@ == rendered(upserted_lines(lines_of(contents@), alias@, lines_of(block@))),
{
    let ls = lines(contents);
    let bl = lines(block);
    let ghost lsv = views(ls@);
    let mut start: usize = 0;
    while start < ls.len() && !host_line_matches(&ls[start], alias)
        invariant
            start <= ls@.len(),
            forall|k: int| 0 <= k < start ==> !host_line_names(#[trigger] views(ls@)[k], alias@),
        decreases ls.len() - start,
    {
        start = start + 1;
    }
    let mut out: Vec<Vec<char>> = Vec::new();
    if start < ls.len() {
        proof {
            lemma_first_host_index_unique(lsv, alias@, start as int);
        }
        let mut end: usize = start + 1;
        while end < ls.len() && !starts_with_host(&ls[end])
            invariant
                start < end <= ls@.len(),
                forall|j: int| start + 1 <= j < end ==> !is_host_line(#[trigger] views(ls@)[j]),
            decreases ls.len() - end,
        {
            end = end + 1;
        }
        proof {
            lemma_next_host_line(lsv, start + 1, end as int);
        }
        push_all(&mut out, &ls, 0, start);
        assert(lsv.subrange(0, start as int) =~= lsv.take(start as int));
        push_separator(&mut out);
        push_all(&mut out, &bl, 0, bl.len());
        assert(views(bl@).subrange(0, bl@.len() as int) =~= views(bl@));
        if end < ls.len() && ls[end].len() > 0 {
            out.push(Vec::new());
        }
        let ghost mid = views(out@);
        push_all(&mut out, &ls, end, ls.len());
        assert(lsv.subrange(end as int, lsv.len() as int) =~= lsv.skip(end as int));
        assert(views(out@) =~= upserted_lines(lsv, alias@, views(bl@)));
    } else {
        proof {
            lemma_first_host_index_none(lsv, alias@);
        }
        push_all(&mut out, &ls, 0, ls.len());
        assert(lsv.subrange(0, lsv.len() as int) =~= lsv);
        push_separator(&mut out);
        push_all(&mut out, &bl, 0, bl.len());
        assert(views(bl@).subrange(0, bl@.len() as int) =~= views(bl@));
        assert(views(out@) =~= upserted_lines(lsv, alias@, views(bl@)));
    }
    render(&out)
}

// ---------------------------------------------------------------------------
// Include lines
// ---------------------------------------------------------------------------

/// The `Include` line for a config file path: `Include "<path>"`.
pub open spec fn include_line_of(path: Seq<char>) -> Seq<char> {
    "Include \""@ + path + "\""@
}

/// The `Include` line for a config file path.
pub fn render_include_line(path: &str) -> (r: String)
    ensures
        r@ == include_line_of(path@),
{
    concat3("Include \"", path, "\"")
}

/// Whether one line is an `Include` line naming `path`, quoted or plain.
pub open spec fn line_includes(l: Seq<char>, path: Seq<char>) -> bool {
    let t = trim(l);
    &&& "Include "@.is_prefix_of(t)
    &&& (words(t.skip(8)).contains("\""@ + path + "\""@) || words(t.skip(8)).contains(path))
}

/// Whether a config text has an `Include` line naming `path`.
pub open spec fn includes_path(contents: Seq<char>, path: Seq<char>) -> bool {
    exists|i: int| 0 <= i < lines_of(contents).len() && line_includes(#[trigger] lines_of(contents)[i], path)
}

fn line_includes_exec(l: &Vec<char>, path: &str) -> (r: bool)
    ensures
        r == line_includes(l@, path@),
{
    let t = trim_chars(l);
    let p = chars_of("Include ");
    if !vec_starts_with(&t, &p) {
        return false;
    }
    proof {
        reveal_strlit("Include ");
    }
    let rest = subvec(&t, 8, t.len());
    assert(rest@ =~= trim(l@).skip(8));
    let quoted = concat3("\"", path, "\"");
    let q = chars_of(quoted.as_str());
    let plain = chars_of(path);
    has_word(&rest, &q) || has_word(&rest, &plain)
}

/// Whether a config text already includes `path`.
pub fn ssh_config_includes_path(contents: &str, path: &str) -> (r: bool)
    ensures
        r == includes_path(contents@, path@),
{
    let ls = lines(contents);
    let mut i: usize = 0;
    while i < ls.len()
        invariant
            i <= ls@.len(),
            views(ls@) == lines_of(contents@),
            forall|k: int| 0 <= k < i ==> !line_includes(#[trigger] lines_of(contents@)[k], path@),
        decreases ls.len() - i,
    {
        if line_includes_exec(&ls[i], path) {
            assert(views(ls@)[i as int] == ls@[i as int]@);
            return true;
        }
        assert(views(ls@)[i as int] == ls@[i as int]@);
        i = i + 1;
    }
    false
}

/// Whether a line starts a `Host` or `Match` block.
pub open spec fn opens_block(l: Seq<char>) -> bool {
    "Host "@.is_prefix_of(trim_start(l)) || "Match "@.is_prefix_of(trim_start(l))
}

/// The lines that are not `Include` lines for `path`, in order.
pub open spec fn without_includes(ls: Seq<Seq<char>>, path: Seq<char>) -> Seq<Seq<char>>
    decreases ls.len(),
{
    if ls.len() == 0 {
        Seq::empty()
    } else {
        let r = without_includes(ls.drop_last(), path);
        if includes_path(ls.last(), path) {
            r
        } else {
            r.push(ls.last())
        }
    }
}

/// The index of the first line that opens a block at or after `i`, or the
/// end.
pub open spec fn first_block(ls: Seq<Seq<char>>, i: int) -> int
    decreases ls.len() - i,
{
    if i >= ls.len() {
        ls.len() as int
    } else if opens_block(ls[i]) {
        i
    } else {
        first_block(ls, i + 1)
    }
}

/// The lines of a config with exactly one `Include` line for `path`, put
/// before the first `Host` or `Match` block (or at the end), set off from
/// its neighbours by empty lines.
pub open spec fn with_include_lines(ls: Seq<Seq<char>>, path: Seq<char>) -> Seq<Seq<char>> {
    let kept = without_includes(ls, path);
    let at = first_block(kept, 0);
    let sep: Seq<Seq<char>> = if at < kept.len() && kept[at].len() > 0 {
        seq![Seq::<char>::empty()]
    } else {
        Seq::empty()
    };
    with_separator(kept.take(at)).push(include_line_of(path)) + sep + kept.skip(at)
}

fn opens_block_exec(v: &Vec<char>) -> (r: bool)
    ensures
        r == opens_block(v@),
{
    let t = trim_start_exec(v);
    let h = chars_of("Host ");
    let m = chars_of("Match ");
    vec_starts_with(&t, &h) || vec_starts_with(&t, &m)
}

proof fn lemma_first_block(ls: Seq<Seq<char>>, from: int, k: int)
    requires
        0 <= from <= k <= ls.len(),
        forall|j: int| from <= j < k ==> !opens_block(#[trigger] ls[j]),
        k == ls.len() || opens_block(ls[k]),
    ensures
        first_block(ls, from) == k,
    decreases k - from,
{
    if from < k {
        lemma_first_block(ls, from + 1, k);
    }
}

/// The config text with exactly one `Include` line for `managed_config`:
/// earlier `Include` lines for it are dropped and one is placed before the
/// first `Host` or `Match` block, separated by empty lines.
pub fn with_include(contents: &str, managed_config: &str) -> (r: String)
    ensures
        r@ == rendered(with_include_lines(lines_of(contents@), managed_config@)),
{
    let ls = lines(contents);
    let ghost lsv = views(ls@);
    let mut kept: Vec<Vec<char>> = Vec::new();
    let mut i: usize = 0;
    assert(lsv.take(0) =~= Seq::<Seq<char>>::empty());
    while i < ls.len()
        invariant
            i <= ls@.len(),
            lsv == views(ls@),
            views(kept@) == without_includes(lsv.take(i as int), managed_config@),
        decreases ls.len() - i,
    {
        let line = string_from_chars(&ls[i]);
        let inc = ssh_config_includes_path(line.as_str(), managed_config);
        proof {
            let t = lsv.take(i + 1);
            assert(t.drop_last() =~= lsv.take(i as int));
            assert(t.last() == ls@[i as int]@);
        }
        if !inc {
            let ghost before = views(kept@);
            kept.push(copy_chars(&ls[i]));
            assert(views(kept@) =~= before.push(ls@[i as int]@));
        }
        i = i + 1;
    }
    assert(lsv.take(i as int) =~= lsv);
    let ghost kv = views(kept@);
    let mut at: usize = 0;
    while at < kept.len() && !opens_block_exec(&kept[at])
        invariant
            at <= kept@.len(),
            kv == views(kept@),
            forall|j: int| 0 <= j < at ==> !opens_block(#[trigger] kv[j]),
        decreases kept.len() - at,
    {
        at = at + 1;
    }
    proof {
        lemma_first_block(kv, 0, at as int);
    }
    let mut out: Vec<Vec<char>> = Vec::new();
    push_all(&mut out, &kept, 0, at);
    assert(kv.subrange(0, at as int) =~= kv.take(at as int));
    push_separator(&mut out);
    let inc_line = render_include_line(managed_config);
    let ghost before = views(out@);
    out.push(chars_of(inc_line.as_str()));
    assert(views(out@) =~= before.push(include_line_of(managed_config@)));
    if at < kept.len() && kept[at].len() > 0 {
        out.push(Vec::new());
    }
    push_all(&mut out, &kept, at, kept.len());
    assert(kv.subrange(at as int, kv.len() as int) =~= kv.skip(at as int));
    assert(views(out@) =~= with_include_lines(lsv, managed_config@));
    render(&out)
}

/// The managed `Host` block of a sandbox. `proxy_command_exe` is the
/// shell-escaped path of the CLI executable.
pub fn render_ssh_config(proxy_command_exe: &str, gateway: &str, name: &str) -> (r: String)
    ensures
        r@ == "Host "@ + "openshell-"@ + name@
            + "\n    User sandbox\n    StrictHostKeyChecking no\n    UserKnownHostsFile /dev/null\n    GlobalKnownHostsFile /dev/null\n    LogLevel ERROR\n    ProxyCommand "@
            + proxy_command_exe@ + " ssh-proxy --gateway-name "@ + gateway@ + " --name "@ + name@
            + "\n"@,
{
    let alias = host_alias(name);
    let mut r = concat2("Host ", alias.as_str());
    crate::text::push_str_chars(
        &mut r,
        "\n    User sandbox\n    StrictHostKeyChecking no\n    UserKnownHostsFile /dev/null\n    GlobalKnownHostsFile /dev/null\n    LogLevel ERROR\n    ProxyCommand ",
    );
    crate::text::push_str_chars(&mut r, proxy_command_exe);
    crate::text::push_str_chars(&mut r, " ssh-proxy --gateway-name ");
    crate::text::push_str_chars(&mut r, gateway);
    crate::text::push_str_chars(&mut r, " --name ");
    crate::text::push_str_chars(&mut r, name);
    crate::text::push_str_chars(&mut r, "\n");
    r
}

// ---------------------------------------------------------------------------
// Laws
// ---------------------------------------------------------------------------

/// After an upsert, the block's lines appear right where the alias's first
/// `Host` line was (or at the end), and every line before it is kept.
pub proof fn lemma_upsert_keeps_prefix(ls: Seq<Seq<char>>, alias: Seq<char>, block: Seq<Seq<char>>)
    ensures
        ({
            let out = upserted_lines(ls, alias, block);
            let start = match first_host_index(ls, alias) {
                Some(i) => i,
                None => ls.len() as int,
            };
            let head = with_separator(ls.take(start));
            &&& out.take(head.len() as int) == head
            &&& out.subrange(head.len() as int, (head.len() + block.len()) as int) == block
        }),
{
    let start = match first_host_index(ls, alias) {
        Some(i) => i,
        None => ls.len() as int,
    };
    lemma_first_host_index(ls, alias);
    if first_host_index(ls, alias) is None {
        assert(ls.take(start) =~= ls);
    }
    let out = upserted_lines(ls, alias, block);
    let head = with_separator(ls.take(start));
    assert(out.take(head.len() as int) =~= head);
    assert(out.subrange(head.len() as int, (head.len() + block.len()) as int) =~= block);
}


/// A text without whitespace characters.
pub open spec fn no_ws(s: Seq<char>) -> bool {
    forall|i: int| 0 <= i < s.len() ==> !is_ws(#[trigger] s[i])
}

proof fn lemma_split_on_without_sep(s: Seq<char>, c: char)
    requires
        forall|i: int| 0 <= i < s.len() ==> s[i] != c,
    ensures
        split_on(s, c) =~= seq![s],
    decreases s.len(),
{
    if s.len() > 0 {
        let d = s.drop_last();
        assert forall|i: int| 0 <= i < d.len() implies d[i] != c by {
            assert(d[i] == s[i]);
        }
        lemma_split_on_without_sep(d, c);
        assert(s.last() == s[s.len() - 1]);
        assert(d.push(s.last()) =~= s);
        let t = split_on(d, c);
        assert(split_on(s, c) == t.update(t.len() - 1, t.last().push(s.last())));
    } else {
        assert(s =~= Seq::<char>::empty());
    }
}

proof fn lemma_words_of_one_word(s: Seq<char>)
    requires
        s.len() > 0,
        no_ws(s),
    ensures
        words(s) =~= seq![s],
    decreases s.len(),
{
    let d = s.drop_last();
    assert(s.last() == s[s.len() - 1]);
    assert(!is_ws(s.last()));
    if s.len() == 1 {
        assert(d =~= Seq::<char>::empty());
        assert(words(d) =~= Seq::<Seq<char>>::empty());
        assert(seq![s.last()] =~= s);
        assert(words(s) == words(d).push(seq![s.last()]));
    } else {
        assert forall|i: int| 0 <= i < d.len() implies !is_ws(#[trigger] d[i]) by {
            assert(d[i] == s[i]);
        }
        lemma_words_of_one_word(d);
        assert(s[s.len() - 2] == d[d.len() - 1]);
        assert(!is_ws(s[s.len() - 2]));
        assert(d.push(s.last()) =~= s);
        let w = words(d);
        assert(words(s) == w.update(w.len() - 1, w.last().push(s.last())));
    }
}

/// The `Include` line for a whitespace-free path is recognised as naming it.
proof fn lemma_include_line_names_path(path: Seq<char>)
    requires
        no_ws(path),
    ensures
        includes_path(include_line_of(path), path),
{
    reveal_strlit("Include \"");
    reveal_strlit("\"");
    reveal_strlit("Include ");
    let l = include_line_of(path);
    let q = "\""@ + path + "\""@;
    assert(l =~= "Include "@ + q);
    assert(!is_ws('"'));
    assert(no_ws(q));
    assert forall|i: int| 0 <= i < l.len() implies l[i] != '\n' by {
        if i >= 8 {
            assert(l[i] == q[i - 8]);
            assert(!is_ws(q[i - 8]));
        }
    }
    lemma_split_on_without_sep(l, '\n');
    assert(lines_of(l) =~= seq![l]);
    assert(!is_ws('I'));
    assert(crate::text::leading_ws(l) == 0);
    assert(crate::text::trailing_ws(l) == 0);
    assert(trim(l) =~= l);
    assert(l.skip(8) =~= q);
    lemma_words_of_one_word(q);
    assert(words(trim(l).skip(8))[0] == q);
    assert(line_includes(lines_of(l)[0], path));
}

/// An empty line names no path.
proof fn lemma_empty_line_names_nothing(path: Seq<char>)
    ensures
        !includes_path(Seq::<char>::empty(), path),
{
    assert(lines_of(Seq::<char>::empty()).len() == 0);
}

proof fn lemma_without_includes_drops_all(ls: Seq<Seq<char>>, path: Seq<char>)
    ensures
        forall|j: int|
            0 <= j < without_includes(ls, path).len() ==> !includes_path(
                #[trigger] without_includes(ls, path)[j],
                path,
            ),
    decreases ls.len(),
{
    if ls.len() > 0 {
        let r = without_includes(ls.drop_last(), path);
        lemma_without_includes_drops_all(ls.drop_last(), path);
        let w = without_includes(ls, path);
        assert forall|j: int| 0 <= j < w.len() implies !includes_path(#[trigger] w[j], path) by {
            if j < r.len() {
                assert(w[j] == r[j]);
            } else {
                assert(w[j] == ls.last());
            }
        }
    }
}

proof fn lemma_first_block_in_range(ls: Seq<Seq<char>>, i: int)
    requires
        0 <= i <= ls.len(),
    ensures
        i <= first_block(ls, i) <= ls.len(),
    decreases ls.len() - i,
{
    if i < ls.len() && !opens_block(ls[i]) {
        lemma_first_block_in_range(ls, i + 1);
    }
}

/// After `with_include` the config has exactly one line that includes the
/// managed file: the new `Include` line (for a path without whitespace,
/// which is what the include check can recognise).
pub proof fn lemma_include_appears_once(ls: Seq<Seq<char>>, path: Seq<char>)
    requires
        no_ws(path),
    ensures
        ({
            let r = with_include_lines(ls, path);
            exists|i: int|
                0 <= i < r.len() && #[trigger] r[i] == include_line_of(path) && includes_path(
                    r[i],
                    path,
                ) && forall|j: int|
                    0 <= j < r.len() && j != i ==> !includes_path(#[trigger] r[j], path)
        }),
{
    let kept = without_includes(ls, path);
    let at = first_block(kept, 0);
    lemma_first_block_in_range(kept, 0);
    let a = with_separator(kept.take(at));
    let sep: Seq<Seq<char>> = if at < kept.len() && kept[at].len() > 0 {
        seq![Seq::<char>::empty()]
    } else {
        Seq::empty()
    };
    let r = with_include_lines(ls, path);
    assert(r =~= a.push(include_line_of(path)) + sep + kept.skip(at));
    let i = a.len() as int;
    lemma_include_line_names_path(path);
    lemma_empty_line_names_nothing(path);
    lemma_without_includes_drops_all(ls, path);
    assert forall|j: int| 0 <= j < r.len() && j != i implies !includes_path(#[trigger] r[j], path) by {
        if j < i {
            assert(r[j] == a[j]);
            if j < at {
                assert(a[j] == kept[j]);
            } else {
                assert(a[j] == Seq::<char>::empty());
            }
        } else if j < i + 1 + sep.len() {
            assert(r[j] == Seq::<char>::empty());
        } else {
            assert(r[j] == kept[at + (j - i - 1 - sep.len())]);
        }
    }
    assert(r[i] == include_line_of(path));
}


proof fn lemma_before_first_block(ls: Seq<Seq<char>>, from: int, j: int)
    requires
        0 <= from <= j < first_block(ls, from),
        from <= ls.len(),
    ensures
        !opens_block(ls[j]),
    decreases ls.len() - from,
{
    lemma_first_block_in_range(ls, from);
    if from < ls.len() && !opens_block(ls[from]) && j > from {
        lemma_first_block_in_range(ls, from + 1);
        lemma_before_first_block(ls, from + 1, j);
    }
}

proof fn lemma_without_includes_from_input(ls: Seq<Seq<char>>, path: Seq<char>)
    ensures
        forall|j: int|
            0 <= j < without_includes(ls, path).len() ==> ls.contains(
                #[trigger] without_includes(ls, path)[j],
            ),
    decreases ls.len(),
{
    if ls.len() > 0 {
        let d = ls.drop_last();
        lemma_without_includes_from_input(d, path);
        let r = without_includes(d, path);
        let w = without_includes(ls, path);
        assert forall|j: int| 0 <= j < w.len() implies ls.contains(#[trigger] w[j]) by {
            if j < r.len() {
                assert(w[j] == r[j]);
                assert(d.contains(r[j]));
                let k = choose|k: int| 0 <= k < d.len() && d[k] == r[j];
                assert(ls[k] == d[k]);
            } else {
                assert(w[j] == ls.last());
                assert(ls[ls.len() - 1] == ls.last());
            }
        }
    }
}

/// `with_include` puts the `Include` line ahead of every `Host` and `Match`
/// block, so that it applies unconditionally: every line before it is a
/// line of the input or an empty line, and none of them starts (after
/// leading whitespace) with `Host ` or `Match `.
pub proof fn lemma_include_precedes_every_block(ls: Seq<Seq<char>>, path: Seq<char>)
    ensures
        ({
            let r = with_include_lines(ls, path);
            exists|i: int|
                0 <= i < r.len() && #[trigger] r[i] == include_line_of(path) && forall|j: int|
                    0 <= j < i ==> (ls.contains(#[trigger] r[j]) || r[j].len() == 0)
                        && !"Host "@.is_prefix_of(trim_start(r[j])) && !"Match "@.is_prefix_of(
                        trim_start(r[j]),
                    )
        }),
{
    reveal_strlit("Host ");
    reveal_strlit("Match ");
    let kept = without_includes(ls, path);
    let at = first_block(kept, 0);
    lemma_first_block_in_range(kept, 0);
    lemma_without_includes_from_input(ls, path);
    let a = with_separator(kept.take(at));
    let sep: Seq<Seq<char>> = if at < kept.len() && kept[at].len() > 0 {
        seq![Seq::<char>::empty()]
    } else {
        Seq::empty()
    };
    let r = with_include_lines(ls, path);
    assert(r =~= a.push(include_line_of(path)) + sep + kept.skip(at));
    let i = a.len() as int;
    assert forall|j: int| 0 <= j < i implies (ls.contains(#[trigger] r[j]) || r[j].len() == 0)
        && !"Host "@.is_prefix_of(trim_start(r[j])) && !"Match "@.is_prefix_of(trim_start(r[j])) by {
        assert(r[j] == a[j]);
        if j < at {
            assert(a[j] == kept[j]);
            lemma_before_first_block(kept, 0, j);
        } else {
            assert(a[j] == Seq::<char>::empty());
            assert(trim_start(r[j]).len() == 0);
        }
    }
    assert(r[i] == include_line_of(path));
}

} // verus!

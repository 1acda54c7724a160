//! Event type filtering for the watch stream.
//!
//! Filters are comma-separated event type names (e.g.
//! `--filter command,network,policy`). An empty filter lets every event
//! through.

use vstd::prelude::*;
use crate::event::{payload_type, WatchEvent};
use crate::observe_error::ObserveError;
use crate::text::{
    chars_of, split_chars, split_on, str_eq, string_from_chars, trim, trim_chars, vec_eq,
};

verus! {

/// A known event type name.
pub open spec fn valid_event_type(t: Seq<char>) -> bool {
    t == "command"@ || t == "file"@ || t == "network"@ || t == "policy"@ || t == "mcp"@ || t
        == "lifecycle"@ || t == "inference"@ || t == "watch"@
}

/// The known event type names, in their documented order.
pub fn valid_event_types() -> (r: Vec<&'static str>)
    ensures
        r@.len() == 8,
        forall|i: int| 0 <= i < 8 ==> valid_event_type(#[trigger] r@[i]@),
        forall|t: Seq<char>| valid_event_type(t) ==> exists|i: int| 0 <= i < 8 && #[trigger] r@[i]@ == t,
{
    let r = vec!["command", "file", "network", "policy", "mcp", "lifecycle", "inference", "watch"];
    assert forall|t: Seq<char>| valid_event_type(t) implies exists|i: int| 0 <= i < 8 && #[trigger] r@[i]@ == t by {
        if t == "command"@ {
            assert(r@[0]@ == t);
        } else if t == "file"@ {
            assert(r@[1]@ == t);
        } else if t == "network"@ {
            assert(r@[2]@ == t);
        } else if t == "policy"@ {
            assert(r@[3]@ == t);
        } else if t == "mcp"@ {
            assert(r@[4]@ == t);
        } else if t == "lifecycle"@ {
            assert(r@[5]@ == t);
        } else if t == "inference"@ {
            assert(r@[6]@ == t);
        } else {
            assert(r@[7]@ == t);
        }
    }
    r
}

fn is_valid_event_type(t: &Vec<char>) -> (r: bool)
    ensures
        r == valid_event_type(t@),
{
    let s = string_from_chars(t);
    let u = s.as_str();
    str_eq(u, "command") || str_eq(u, "file") || str_eq(u, "network") || str_eq(u, "policy")
        || str_eq(u, "mcp") || str_eq(u, "lifecycle") || str_eq(u, "inference") || str_eq(
        u,
        "watch",
    )
}

/// The outcome of parsing the comma-separated pieces `pieces`: the distinct
/// known types in first-seen order, or the first trimmed piece that is not
/// a known type. Pieces that are empty after trimming are skipped.
pub open spec fn parse_pieces(pieces: Seq<Seq<char>>) -> Result<Seq<Seq<char>>, Seq<char>>
    decreases pieces.len(),
{
    if pieces.len() == 0 {
        Ok(Seq::empty())
    } else {
        match parse_pieces(pieces.drop_last()) {
            Err(e) => Err(e),
            Ok(types) => {
                let t = trim(pieces.last());
                if t.len() == 0 {
                    Ok(types)
                } else if !valid_event_type(t) {
                    Err(t)
                } else if types.contains(t) {
                    Ok(types)
                } else {
                    Ok(types.push(t))
                }
            },
        }
    }
}

proof fn lemma_parse_err_stable(ps: Seq<Seq<char>>, k: int, n: int)
    requires
        0 <= k <= n <= ps.len(),
        parse_pieces(ps.take(k)) is Err,
    ensures
        parse_pieces(ps.take(n)) == parse_pieces(ps.take(k)),
    decreases n - k,
{
    if n > k {
        lemma_parse_err_stable(ps, k, n - 1);
        assert(ps.take(n).drop_last() =~= ps.take(n - 1));
    }
}

/// The outcome of parsing a filter string.
pub open spec fn parse_filter(s: Seq<char>) -> Result<Seq<Seq<char>>, Seq<char>> {
    parse_pieces(split_on(s, ','))
}

/// `flags` joined with commas.
pub open spec fn joined_flags(flags: Seq<String>) -> Seq<char>
    decreases flags.len(),
{
    if flags.len() == 0 {
        Seq::empty()
    } else if flags.len() == 1 {
        flags[0]@
    } else {
        joined_flags(flags.drop_last()) + ","@ + flags.last()@
    }
}

/// A parsed set of event type filters; an empty set lets every event
/// through.
#[derive(Debug, Clone)]
pub struct EventFilter {
    types: Vec<String>,
}

impl Default for EventFilter {
    /// A filter that lets every event through.
    fn default() -> (r: Self)
        ensures
            r.types_spec().len() == 0,
    {
        EventFilter { types: Vec::new() }
    }
}

impl EventFilter {
    /// The event types the filter lets through (all, when empty).
    pub closed spec fn types_spec(&self) -> Seq<Seq<char>> {
        self.types@.map_values(|t: String| t@)
    }

    /// Whether the filter lets an event of type `t` through.
    pub open spec fn admits(&self, t: Seq<char>) -> bool {
        self.types_spec().len() == 0 || self.types_spec().contains(t)
    }

    /// A filter that passes all events.
    pub fn all() -> (r: Self)
        ensures
            r.types_spec().len() == 0,
    {
        EventFilter { types: Vec::new() }
    }

    /// Parse a comma-separated filter string.
    ///
    /// Each piece is trimmed; empty pieces are skipped, repeated types kept
    /// once, and the first unknown piece gives `InvalidFilter` with that
    /// piece. The empty string gives the pass-all filter.
    pub fn parse(filter_str: &str) -> (r: Result<Self, ObserveError>)
        ensures
            match parse_filter(filter_str@) {
                Ok(types) => r matches Ok(f) && f.types_spec() == types,
                Err(bad) => r matches Err(ObserveError::InvalidFilter { filter }) && filter@ == bad,
            },
    {
        let v = chars_of(filter_str);
        let pieces = split_chars(&v, ',');
        let mut types: Vec<String> = Vec::new();
        let mut i: usize = 0;
        assert(crate::text::views(pieces@).take(0) =~= Seq::<Seq<char>>::empty());
        assert(types@.map_values(|t: String| t@) =~= Seq::<Seq<char>>::empty());
        while i < pieces.len()
            invariant
                i <= pieces@.len(),
                crate::text::views(pieces@) == split_on(v@, ','),
                v@ == filter_str@,
                parse_pieces(crate::text::views(pieces@).take(i as int)) == Ok::<
                    Seq<Seq<char>>,
                    Seq<char>,
                >(types@.map_values(|t: String| t@)),
            decreases pieces.len() - i,
        {
            let ghost ps = crate::text::views(pieces@);
            proof {
                assert(ps.take(i + 1).drop_last() =~= ps.take(i as int));
                assert(ps.take(i + 1).last() == pieces@[i as int]@);
            }
            let t = trim_chars(&pieces[i]);
            if t.len() > 0 {
                if !is_valid_event_type(&t) {
                    proof {
                        let ps = crate::text::views(pieces@);
                        lemma_parse_err_stable(ps, i + 1, ps.len() as int);
                        assert(ps.take(ps.len() as int) =~= ps);
                    }
                    return Err(ObserveError::InvalidFilter { filter: string_from_chars(&t) });
                }
                let mut seen = false;
                let mut j: usize = 0;
                while j < types.len()
                    invariant
                        j <= types@.len(),
                        seen <==> exists|k: int| 0 <= k < j && #[trigger] types@[k]@ == t@,
                    decreases types.len() - j,
                {
                    let tj = chars_of(types[j].as_str());
                    if vec_eq(&tj, &t) {
                        seen = true;
                    }
                    j = j + 1;
                }
                proof {
                    let m = types@.map_values(|x: String| x@);
                    if seen {
                        let k = choose|k: int| 0 <= k < types@.len() && #[trigger] types@[k]@ == t@;
                        assert(m[k] == t@);
                    } else {
                        assert forall|k: int| 0 <= k < m.len() implies m[k] != t@ by {
                            assert(m[k] == types@[k]@);
                        }
                    }
                }
                if !seen {
                    let ghost before = types@;
                    types.push(string_from_chars(&t));
                    assert(types@.map_values(|x: String| x@) =~= before.map_values(|x: String| x@).push(t@));
                }
            }
            i = i + 1;
        }
        assert(crate::text::views(pieces@).take(i as int) =~= crate::text::views(pieces@));
        Ok(EventFilter { types })
    }

    /// Parse several `--type` flag values into one filter: each value may
    /// itself be comma-separated; no values gives the pass-all filter.
    pub fn from_type_flags(flags: &Vec<String>) -> (r: Result<Self, ObserveError>)
        ensures
            flags@.len() == 0 ==> (r matches Ok(f) && f.types_spec().len() == 0),
            flags@.len() > 0 ==> match parse_filter(joined_flags(flags@)) {
                Ok(types) => r matches Ok(f) && f.types_spec() == types,
                Err(bad) => r matches Err(ObserveError::InvalidFilter { filter }) && filter@ == bad,
            },
    {
        if flags.len() == 0 {
            return Ok(EventFilter::all());
        }
        let mut combined = String::new();
        let mut i: usize = 0;
        while i < flags.len()
            invariant
                i <= flags@.len(),
                combined@ == joined_flags(flags@.take(i as int)),
            decreases flags.len() - i,
        {
            if i > 0 {
                crate::text::push_str_chars(&mut combined, ",");
            }
            crate::text::push_str_chars(&mut combined, flags[i].as_str());
            proof {
                let t = flags@.take(i + 1);
                assert(t.drop_last() =~= flags@.take(i as int));
                if i == 0 {
                    assert(flags@.take(0) =~= Seq::<String>::empty());
                }
            }
            i = i + 1;
        }
        assert(flags@.take(i as int) =~= flags@);
        Self::parse(combined.as_str())
    }

    /// Whether this event should be included in the output.
    pub fn matches(&self, event: &WatchEvent) -> (r: bool)
        ensures
            r == self.admits(payload_type(event.payload_spec())),
    {
        if self.types.len() == 0 {
            return true;
        }
        let t = event.event_type();
        let mut i: usize = 0;
        while i < self.types.len()
            invariant
                i <= self.types@.len(),
                t@ == payload_type(event.payload_spec()),
                forall|k: int| 0 <= k < i ==> (#[trigger] self.types@[k])@ != t@,
            decreases self.types.len() - i,
        {
            if str_eq(self.types[i].as_str(), t) {
                proof {
                    assert(self.types_spec()[i as int] == t@);
                }
                return true;
            }
            i = i + 1;
        }
        proof {
            assert forall|k: int| 0 <= k < self.types_spec().len() implies self.types_spec()[k]
                != t@ by {
                assert(self.types_spec()[k] == self.types@[k]@);
            }
        }
        false
    }

    /// Whether no filtering is applied (all events pass).
    pub fn is_empty(&self) -> (r: bool)
        ensures
            r <==> self.types_spec().len() == 0,
    {
        self.types.len() == 0
    }

    /// The active filter types.
    pub fn active_types(&self) -> (r: &Vec<String>)
        ensures
            r@.map_values(|t: String| t@) == self.types_spec(),
    {
        &self.types
    }
}

/// A parsed filter holds only known types, each once.
pub proof fn lemma_parsed_types_valid_and_distinct(pieces: Seq<Seq<char>>)
    ensures
        parse_pieces(pieces) matches Ok(types) ==> (forall|i: int|
            0 <= i < types.len() ==> valid_event_type(#[trigger] types[i])) && types.no_duplicates(),
    decreases pieces.len(),
{
    if pieces.len() > 0 {
        lemma_parsed_types_valid_and_distinct(pieces.drop_last());
    }
}

} // verus!

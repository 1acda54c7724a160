//! Tool-level policy for MCP bridge traffic.
//!
//! Evaluation is a pure function of the policy and the tool name:
//!
//! - a tool that matches any `denied_tools` pattern is denied;
//! - otherwise, when `allowed_tools` is non-empty, a tool is allowed only if
//!   it matches one of its patterns;
//! - otherwise (both lists empty, or only denials that do not match) the
//!   tool is allowed.
//!
//! Patterns are glob patterns; a pattern that does not compile as a glob
//! matches only the identical tool name.

use vstd::prelude::*;
use crate::named_map::NamedMap;
use crate::text::{concat3, concat5, push_str_chars, str_eq, to_owned_string};

verus! {

// ---------------------------------------------------------------------------
// Glob patterns (the `glob` crate)
// ---------------------------------------------------------------------------

/// Whether `glob::Pattern::new` accepts a pattern.
pub uninterp spec fn glob_pattern_valid(pattern: Seq<char>) -> bool;

/// Whether a compiled glob pattern matches a name (`glob::Pattern::matches`).
pub uninterp spec fn glob_match(pattern: Seq<char>, name: Seq<char>) -> bool;

/// Calls `glob::Pattern::new` and reports whether it succeeded. The result
/// is named `glob_pattern_valid` of the pattern; nothing more is claimed.
#[verifier::external_body]
fn is_valid_glob(pattern: &str) -> (r: bool)
    ensures
        r == glob_pattern_valid(pattern@),
{
    glob::Pattern::new(pattern).is_ok()
}

/// Compiles `pattern` with `glob::Pattern::new` (which succeeds, by the
/// precondition) and calls `glob::Pattern::matches` on `name`. The result is
/// named `glob_match` of the pattern and the name; nothing more is claimed.
#[verifier::external_body]
fn glob_matches(pattern: &str, name: &str) -> (r: bool)
    requires
        glob_pattern_valid(pattern@),
    ensures
        r == glob_match(pattern@, name@),
{
    match glob::Pattern::new(pattern) {
        Ok(p) => p.matches(name),
        Err(_) => false,
    }
}

/// Whether a policy pattern matches a tool name: by glob when the pattern
/// compiles, by exact comparison when it does not.
pub open spec fn tool_pattern_matches(pattern: Seq<char>, tool: Seq<char>) -> bool {
    if glob_pattern_valid(pattern) {
        glob_match(pattern, tool)
    } else {
        pattern == tool
    }
}

/// Match a tool name against a policy pattern.
pub fn matches_tool_pattern(pattern: &str, tool_name: &str) -> (r: bool)
    ensures
        r == tool_pattern_matches(pattern@, tool_name@),
{
    if is_valid_glob(pattern) {
        glob_matches(pattern, tool_name)
    } else {
        str_eq(pattern, tool_name)
    }
}

// ---------------------------------------------------------------------------
// Policy types
// ---------------------------------------------------------------------------

/// Policy decision returned by `evaluate_tool_access`.
#[derive(Debug, Clone, PartialEq, Eq)]
pub enum PolicyDecision {
    /// Tool access is allowed.
    Allow,
    /// Tool access is denied, with reason.
    Deny { reason: String },
}

/// A decision as a value: `None` for allow, the reason for deny.
pub open spec fn decision_reason(d: PolicyDecision) -> Option<Seq<char>> {
    match d {
        PolicyDecision::Allow => None,
        PolicyDecision::Deny { reason } => Some(reason@),
    }
}

impl PolicyDecision {
    /// Returns `true` if the decision is `Allow`.
    pub fn is_allowed(&self) -> (r: bool)
        ensures
            r <==> *self is Allow,
    {
        match self {
            PolicyDecision::Allow => true,
            PolicyDecision::Deny { .. } => false,
        }
    }

    /// Returns `true` if the decision is `Deny`.
    pub fn is_denied(&self) -> (r: bool)
        ensures
            r <==> *self is Deny,
    {
        match self {
            PolicyDecision::Allow => false,
            PolicyDecision::Deny { .. } => true,
        }
    }

    /// The decision as it is displayed: `allow` or `deny: <reason>`.
    pub fn to_display_string(&self) -> (r: String)
        ensures
            r@ == match decision_reason(*self) {
                None => "allow"@,
                Some(reason) => "deny: "@ + reason,
            },
    {
        match self {
            PolicyDecision::Allow => to_owned_string("allow"),
            PolicyDecision::Deny { reason } => {
                let mut r = to_owned_string("deny: ");
                push_str_chars(&mut r, reason.as_str());
                r
            },
        }
    }
}

/// Tool-level policy for a single MCP server endpoint.
#[derive(Debug, Clone)]
pub struct McpToolPolicy {
    /// Tools explicitly allowed. When non-empty, only these tools are permitted.
    pub allowed_tools: Vec<String>,
    /// Tools explicitly denied. Always takes precedence over `allowed_tools`.
    pub denied_tools: Vec<String>,
}

impl Default for McpToolPolicy {
    /// No policy: both lists empty, every tool allowed.
    fn default() -> (r: Self)
        ensures
            r.allowed_tools@.len() == 0,
            r.denied_tools@.len() == 0,
    {
        McpToolPolicy { allowed_tools: Vec::new(), denied_tools: Vec::new() }
    }
}

// ---------------------------------------------------------------------------
// Evaluation
// ---------------------------------------------------------------------------

/// The index of the first `true` in `hits[0..n]`.
pub open spec fn first_hit(hits: Seq<bool>, n: int) -> Option<int>
    decreases n,
{
    if n <= 0 {
        None
    } else {
        match first_hit(hits, n - 1) {
            Some(i) => Some(i),
            None => if hits[n - 1] {
                Some(n - 1)
            } else {
                None
            },
        }
    }
}

/// The reason given when a tool matches a deny pattern.
pub open spec fn deny_pattern_reason(tool: Seq<char>, pattern: Seq<char>) -> Seq<char> {
    "tool '"@ + tool + "' matches deny pattern '"@ + pattern + "'"@
}

/// The reason given when an allow-list is set and the tool is not on it.
pub open spec fn not_allowed_reason(tool: Seq<char>) -> Seq<char> {
    "tool '"@ + tool + "' not in allowed_tools list"@
}

/// The decision for `tool`, given which deny patterns and which allow
/// patterns match it: the first matching deny pattern denies; a non-empty
/// allow list admits only a tool that one of its patterns matches.
pub open spec fn decision_from_hits(
    policy: McpToolPolicy,
    tool: Seq<char>,
    denied_hits: Seq<bool>,
    allowed_hits: Seq<bool>,
) -> Option<Seq<char>> {
    match first_hit(denied_hits, denied_hits.len() as int) {
        Some(i) => Some(deny_pattern_reason(tool, policy.denied_tools@[i]@)),
        None => if policy.allowed_tools@.len() == 0 {
            None
        } else if first_hit(allowed_hits, allowed_hits.len() as int) is Some {
            None
        } else {
            Some(not_allowed_reason(tool))
        },
    }
}

/// Which of `patterns` match `tool`.
pub open spec fn pattern_hits(patterns: Seq<String>, tool: Seq<char>) -> Seq<bool> {
    Seq::new(patterns.len(), |i: int| tool_pattern_matches(patterns[i]@, tool))
}

/// The decision of `policy` for `tool`.
pub open spec fn tool_access(policy: McpToolPolicy, tool: Seq<char>) -> Option<Seq<char>> {
    decision_from_hits(
        policy,
        tool,
        pattern_hits(policy.denied_tools@, tool),
        pattern_hits(policy.allowed_tools@, tool),
    )
}

proof fn lemma_first_hit_found(hits: Seq<bool>, n: int)
    requires
        0 <= n <= hits.len(),
    ensures
        first_hit(hits, n) matches Some(i) ==> 0 <= i < n && hits[i] && forall|k: int|
            0 <= k < i ==> !hits[k],
        first_hit(hits, n) is None ==> forall|k: int| 0 <= k < n ==> !hits[k],
    decreases n,
{
    if n > 0 {
        lemma_first_hit_found(hits, n - 1);
    }
}

proof fn lemma_first_hit_stable(hits: Seq<bool>, k: int, n: int)
    requires
        0 <= k <= n <= hits.len(),
        first_hit(hits, k) is Some,
    ensures
        first_hit(hits, n) == first_hit(hits, k),
    decreases n - k,
{
    if n > k {
        lemma_first_hit_stable(hits, k, n - 1);
    }
}

/// Decide tool access from which patterns match.
///
/// `denied_hits[i]` says whether `denied_tools[i]` matches the tool,
/// `allowed_hits[i]` whether `allowed_tools[i]` does. The first matching
/// deny pattern names the denial; a non-empty allow list with no match
/// denies; anything else is allowed.
pub fn decide_tool_access(
    policy: &McpToolPolicy,
    tool_name: &str,
    denied_hits: &Vec<bool>,
    allowed_hits: &Vec<bool>,
) -> (r: PolicyDecision)
    requires
        denied_hits@.len() == policy.denied_tools@.len(),
        allowed_hits@.len() == policy.allowed_tools@.len(),
    ensures
        decision_reason(r) == decision_from_hits(
            *policy,
            tool_name@,
            denied_hits@,
            allowed_hits@,
        ),
{
    let mut i: usize = 0;
    while i < denied_hits.len()
        invariant
            i <= denied_hits@.len(),
            denied_hits@.len() == policy.denied_tools@.len(),
            first_hit(denied_hits@, i as int) is None,
        decreases denied_hits.len() - i,
    {
        if denied_hits[i] {
            proof {
                lemma_first_hit_stable(denied_hits@, i + 1, denied_hits@.len() as int);
            }
            let reason = concat5(
                "tool '",
                tool_name,
                "' matches deny pattern '",
                policy.denied_tools[i].as_str(),
                "'",
            );
            return PolicyDecision::Deny { reason };
        }
        i = i + 1;
    }
    if policy.allowed_tools.len() == 0 {
        return PolicyDecision::Allow;
    }
    let mut j: usize = 0;
    while j < allowed_hits.len()
        invariant
            j <= allowed_hits@.len(),
            allowed_hits@.len() == policy.allowed_tools@.len(),
            policy.allowed_tools@.len() > 0,
            first_hit(denied_hits@, denied_hits@.len() as int) is None,
            first_hit(allowed_hits@, j as int) is None,
        decreases allowed_hits.len() - j,
    {
        if allowed_hits[j] {
            proof {
                lemma_first_hit_stable(allowed_hits@, j + 1, allowed_hits@.len() as int);
            }
            return PolicyDecision::Allow;
        }
        j = j + 1;
    }
    let reason = concat3("tool '", tool_name, "' not in allowed_tools list");
    PolicyDecision::Deny { reason }
}

/// Which of `patterns` match `tool_name`.
fn hits_for(patterns: &Vec<String>, tool_name: &str) -> (r: Vec<bool>)
    ensures
        r@ == pattern_hits(patterns@, tool_name@),
{
    let mut r: Vec<bool> = Vec::new();
    let mut i: usize = 0;
    while i < patterns.len()
        invariant
            i <= patterns@.len(),
            r@ == pattern_hits(patterns@, tool_name@).take(i as int),
        decreases patterns.len() - i,
    {
        let m = matches_tool_pattern(patterns[i].as_str(), tool_name);
        r.push(m);
        assert(pattern_hits(patterns@, tool_name@).take(i + 1) =~= pattern_hits(
            patterns@,
            tool_name@,
        ).take(i as int).push(m));
        i = i + 1;
    }
    assert(pattern_hits(patterns@, tool_name@).take(i as int) =~= pattern_hits(
        patterns@,
        tool_name@,
    ));
    r
}

/// Evaluate whether a tool is allowed by the given policy.
///
/// Rules, in order of precedence:
/// 1. If the tool matches any `denied_tools` pattern, deny.
/// 2. If `allowed_tools` is non-empty and the tool matches a pattern, allow.
/// 3. If `allowed_tools` is non-empty and the tool does not match, deny.
/// 4. Otherwise allow.
pub fn evaluate_tool_access(policy: &McpToolPolicy, tool_name: &str) -> (r: PolicyDecision)
    ensures
        decision_reason(r) == tool_access(*policy, tool_name@),
{
    let denied_hits = hits_for(&policy.denied_tools, tool_name);
    let allowed_hits = hits_for(&policy.allowed_tools, tool_name);
    decide_tool_access(policy, tool_name, &denied_hits, &allowed_hits)
}

// ---------------------------------------------------------------------------
// Laws of evaluation
// ---------------------------------------------------------------------------

/// A tool that matches a deny pattern is denied, whatever the allow list
/// holds.
pub proof fn lemma_deny_takes_precedence(policy: McpToolPolicy, tool: Seq<char>, i: int)
    requires
        0 <= i < policy.denied_tools@.len(),
        tool_pattern_matches(policy.denied_tools@[i]@, tool),
    ensures
        tool_access(policy, tool) is Some,
{
    let hits = pattern_hits(policy.denied_tools@, tool);
    lemma_first_hit_found(hits, hits.len() as int);
    assert(hits[i]);
}

/// With no policy configured (both lists empty), every tool is allowed.
pub proof fn lemma_empty_policy_allows_all(policy: McpToolPolicy, tool: Seq<char>)
    requires
        policy.allowed_tools@.len() == 0,
        policy.denied_tools@.len() == 0,
    ensures
        tool_access(policy, tool) is None,
{
}

/// An allowed tool matches no deny pattern and, when the allow list is
/// non-empty, matches one of its patterns; a denied tool matches a deny
/// pattern or, under a non-empty allow list, none of its patterns.
pub proof fn lemma_allowed_iff(policy: McpToolPolicy, tool: Seq<char>)
    ensures
        tool_access(policy, tool) is None <==> {
            &&& forall|i: int|
                0 <= i < policy.denied_tools@.len() ==> !tool_pattern_matches(
                    #[trigger] policy.denied_tools@[i]@,
                    tool,
                )
            &&& policy.allowed_tools@.len() > 0 ==> exists|j: int|
                0 <= j < policy.allowed_tools@.len() && tool_pattern_matches(
                    #[trigger] policy.allowed_tools@[j]@,
                    tool,
                )
        },
{
    let dh = pattern_hits(policy.denied_tools@, tool);
    let ah = pattern_hits(policy.allowed_tools@, tool);
    lemma_first_hit_found(dh, dh.len() as int);
    lemma_first_hit_found(ah, ah.len() as int);
    if first_hit(dh, dh.len() as int) is None {
        assert forall|i: int| 0 <= i < policy.denied_tools@.len() implies !tool_pattern_matches(
            #[trigger] policy.denied_tools@[i]@,
            tool,
        ) by {
            assert(!dh[i]);
        }
    } else {
        let i = first_hit(dh, dh.len() as int)->0;
        assert(dh[i]);
    }
    if policy.allowed_tools@.len() > 0 {
        if first_hit(ah, ah.len() as int) is Some {
            let j = first_hit(ah, ah.len() as int)->0;
            assert(ah[j]);
        } else {
            assert forall|j: int| 0 <= j < policy.allowed_tools@.len() implies !tool_pattern_matches(
                #[trigger] policy.allowed_tools@[j]@,
                tool,
            ) by {
                assert(!ah[j]);
            }
        }
    }
}

// ---------------------------------------------------------------------------
// Policy file
// ---------------------------------------------------------------------------

/// Top-level policy file: per-server tool policies, keyed by server name.
#[derive(Debug, Clone)]
pub struct McpPolicyFile {
    /// Per-server tool policies, keyed by server name.
    pub mcp_servers: NamedMap<McpToolPolicy>,
}

impl Default for McpPolicyFile {
    /// An empty policy file: no server has a policy.
    fn default() -> (r: Self)
        ensures
            r.mcp_servers.wf(),
            r.mcp_servers.entries().len() == 0,
    {
        McpPolicyFile { mcp_servers: NamedMap::new() }
    }
}

} // verus!

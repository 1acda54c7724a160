//! Credential resolution for MCP server subprocesses.
//!
//! Credentials are resolved through a provider and handed to the MCP server
//! subprocess as environment variables. Credential values are never part of
//! a message or a log entry.

use vstd::prelude::*;
use crate::bridge_error::BridgeError;
use crate::named_map::NamedMap;

verus! {

/// Resolves credential values by provider name and key.
///
/// The provider decides what a key resolves to. The outcomes it allows are
/// named by `resolves_to` for values and `fails_with` for errors, each for
/// the provider name and key it was asked for; by default any value and any
/// error is allowed, and an implementation may say more.
pub trait CredentialProvider {
    /// Whether `value` is a value this provider may give for `key` of
    /// `provider`.
    closed spec fn resolves_to(&self, provider: Seq<char>, key: Seq<char>, value: Seq<char>) -> bool {
        true
    }

    /// Whether `error` is an error this provider may give for `key` of
    /// `provider`.
    closed spec fn fails_with(&self, provider: Seq<char>, key: Seq<char>, error: BridgeError) -> bool {
        true
    }

    /// Resolve a credential value for the given provider and key.
    fn resolve(&self, provider: &str, key: &str) -> (r: Result<String, BridgeError>)
        ensures
            match r {
                Ok(v) => self.resolves_to(provider@, key@, v@),
                Err(e) => self.fails_with(provider@, key@, e),
            },
    ;
}

/// A credential request: which provider and which env var key to resolve.
#[derive(Debug, Clone)]
pub struct CredentialSpec {
    /// Provider name (e.g., "perplexity", "tavily", "github").
    pub provider: String,
    /// Environment variable name to inject (e.g., `PERPLEXITY_API_KEY`).
    pub env_key: String,
}

/// The environment built from resolved values: each spec's key maps to its
/// value, a later spec overriding an earlier one with the same key.
pub open spec fn env_from_values(specs: Seq<CredentialSpec>, values: Seq<String>, key: Seq<char>) -> Option<
    String,
>
    decreases specs.len(),
{
    if specs.len() == 0 {
        None
    } else if specs.last().env_key@ == key {
        Some(values[specs.len() - 1])
    } else {
        env_from_values(specs.drop_last(), values, key)
    }
}

/// `m` is the environment built from `values` resolved for `specs`.
pub open spec fn env_of(m: NamedMap<String>, specs: Seq<CredentialSpec>, values: Seq<String>) -> bool {
    &&& values.len() == specs.len()
    &&& forall|key: Seq<char>| #[trigger] m.get_spec(key) == env_from_values(specs, values, key)
}

/// Build the environment from the values resolved for `specs`, in order.
pub fn env_from_resolved(specs: &Vec<CredentialSpec>, values: Vec<String>) -> (r: NamedMap<String>)
    requires
        values@.len() == specs@.len(),
    ensures
        r.wf(),
        forall|key: Seq<char>| #[trigger] r.get_spec(key) == env_from_values(specs@, values@, key),
{
    let ghost vals = values@;
    let mut r: NamedMap<String> = NamedMap::new();
    let mut values = values;
    let n = specs.len();
    let mut i: usize = 0;
    while values.len() > 0
        invariant
            i <= specs@.len(),
            specs@.len() == n,
            vals.len() == specs@.len(),
            values@ == vals.skip(i as int),
            r.wf(),
            forall|key: Seq<char>| #[trigger] r.get_spec(key) == env_from_values(
                specs@.take(i as int),
                vals,
                key,
            ),
        decreases values.len(),
    {
        let v = values.remove(0);
        assert(v == vals[i as int]);
        let ghost prev = r;
        r.insert(specs[i].env_key.clone(), v);
        proof {
            let t = specs@.take(i + 1);
            assert(t.drop_last() =~= specs@.take(i as int));
            assert(t.last() == specs@[i as int]);
            assert forall|key: Seq<char>| #[trigger] r.get_spec(key) == env_from_values(
                t,
                vals,
                key,
            ) by {
                if key == specs@[i as int].env_key@ {
                } else {
                    assert(r.get_spec(key) == prev.get_spec(key));
                }
            }
            assert(vals.skip(i as int).remove(0) =~= vals.skip(i + 1));
        }
        i = i + 1;
    }
    assert(specs@.take(i as int) =~= specs@);
    r
}

/// The first `n` specs resolved, in order, to `values`.
pub open spec fn resolved_through<P: CredentialProvider>(
    provider: &P,
    specs: Seq<CredentialSpec>,
    values: Seq<String>,
    n: int,
) -> bool {
    &&& 0 <= n <= specs.len()
    &&& n <= values.len()
    &&& forall|i: int|
        0 <= i < n ==> #[trigger] provider.resolves_to(
            specs[i].provider@,
            specs[i].env_key@,
            values[i]@,
        )
}

/// Resolution stopped at spec `k` with `error`: the specs before it resolved
/// to `values`, and spec `k` failed with `error`.
pub open spec fn stopped_at<P: CredentialProvider>(
    provider: &P,
    specs: Seq<CredentialSpec>,
    values: Seq<String>,
    k: int,
    error: BridgeError,
) -> bool {
    &&& 0 <= k < specs.len()
    &&& resolved_through(provider, specs, values, k)
    &&& provider.fails_with(specs[k].provider@, specs[k].env_key@, error)
}

/// Resolve all requested credentials, in order, and return them as a map
/// from environment variable name to value.
///
/// Each spec is resolved with its own provider name and key. Resolution
/// stops at the first error, which is returned as the provider gave it. With
/// no specs nothing is resolved and the map is empty.
pub fn inject_credentials<P: CredentialProvider>(specs: &Vec<CredentialSpec>, provider: &P) -> (r:
    Result<NamedMap<String>, BridgeError>)
    ensures
        specs@.len() == 0 ==> (r matches Ok(m) && m.entries().len() == 0),
        r matches Ok(m) ==> m.wf() && exists|values: Seq<String>| #[trigger]
            env_of(m, specs@, values) && resolved_through(
                provider,
                specs@,
                values,
                specs@.len() as int,
            ),
        r matches Err(e) ==> exists|values: Seq<String>, k: int| #[trigger]
            stopped_at(provider, specs@, values, k, e),
{
    let mut values: Vec<String> = Vec::new();
    let mut i: usize = 0;
    while i < specs.len()
        invariant
            i <= specs@.len(),
            values@.len() == i,
            resolved_through(provider, specs@, values@, i as int),
        decreases specs.len() - i,
    {
        match provider.resolve(specs[i].provider.as_str(), specs[i].env_key.as_str()) {
            Ok(v) => {
                let ghost before = values@;
                values.push(v);
                proof {
                    assert forall|j: int| 0 <= j < i + 1 implies #[trigger] provider.resolves_to(
                        specs@[j].provider@,
                        specs@[j].env_key@,
                        values@[j]@,
                    ) by {
                        if j < i {
                            assert(values@[j] == before[j]);
                        }
                    }
                }
            },
            Err(e) => {
                assert(stopped_at(provider, specs@, values@, i as int, e));
                return Err(e);
            },
        }
        i = i + 1;
    }
    let ghost vals = values@;
    let m = env_from_resolved(specs, values);
    proof {
        if specs@.len() == 0 && m.entries().len() > 0 {
            let k = m.entries()[0].0@;
            assert(m.get_spec(k) == env_from_values(specs@, vals, k));
        }
        assert(env_of(m, specs@, vals));
        assert(resolved_through(provider, specs@, vals, specs@.len() as int));
    }
    Ok(m)
}

} // verus!

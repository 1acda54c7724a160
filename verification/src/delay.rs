//! Spans of time, as the restart and reconnect backoffs compute them: whole
//! seconds and the nanoseconds past them, the representation
//! `std::time::Duration` uses, with its arithmetic stated exactly.
use vstd::prelude::*;

verus! {

/// Nanoseconds in a second.
pub const NANOS_PER_SEC: u32 = 1_000_000_000;

/// The longest span a `Delay` holds, in nanoseconds: `u64::MAX` seconds
/// and 999 999 999 nanoseconds.
pub open spec fn max_nanos() -> int {
    u64::MAX as int * 1_000_000_000 + 999_999_999
}

/// A product of spans, saturating at the longest one.
pub open spec fn saturating_product(n: int, k: int) -> int {
    if n * k > max_nanos() {
        max_nanos()
    } else {
        n * k
    }
}

/// A span of time: whole seconds and the nanoseconds past them.
#[derive(Debug, Clone, Copy, PartialEq, Eq, Structural)]
pub struct Delay {
    secs: u64,
    nanos: u32,
}

impl Delay {
    /// The nanoseconds past the whole seconds stay below one second.
    #[verifier::type_invariant]
    spec fn nanos_below_a_second(self) -> bool {
        self.nanos < NANOS_PER_SEC
    }

    /// The length of the span in nanoseconds.
    pub closed spec fn as_nanos(self) -> int {
        self.secs * 1_000_000_000 + self.nanos
    }

    /// A span of whole seconds.
    pub fn from_secs(secs: u64) -> (r: Delay)
        ensures
            r.as_nanos() == secs * 1_000_000_000,
    {
        Delay { secs, nanos: 0 }
    }

    /// The whole seconds of the span.
    pub fn as_secs(&self) -> (r: u64)
        ensures
            r == self.as_nanos() / 1_000_000_000,
    {
        proof {
            use_type_invariant(self);
            self.lemma_split();
        }
        self.secs
    }

    /// The nanoseconds past the whole seconds.
    pub fn subsec_nanos(&self) -> (r: u32)
        ensures
            r == self.as_nanos() % 1_000_000_000,
    {
        proof {
            use_type_invariant(self);
            self.lemma_split();
        }
        self.nanos
    }

    /// Seconds and nanoseconds are the quotient and remainder of the length
    /// by a second.
    proof fn lemma_split(self)
        requires
            self.nanos < NANOS_PER_SEC,
        ensures
            self.as_nanos() / 1_000_000_000 == self.secs,
            self.as_nanos() % 1_000_000_000 == self.nanos,
            0 <= self.as_nanos() <= max_nanos(),
    {
        let n = self.as_nanos();
        let s = self.secs as int;
        let ns = self.nanos as int;
        assert(n == s * 1_000_000_000 + ns);
        vstd::arithmetic::div_mod::lemma_fundamental_div_mod_converse(
            n,
            1_000_000_000,
            s,
            ns,
        );
        assert(s * 1_000_000_000 <= u64::MAX as int * 1_000_000_000) by (nonlinear_arith)
            requires
                0 <= s <= u64::MAX as int,
        ;
    }

    /// The span `k` times over, saturating at the longest span.
    pub fn saturating_mul(self, k: u32) -> (r: Delay)
        ensures
            r.as_nanos() == saturating_product(self.as_nanos(), k as int),
    {
        proof {
            use_type_invariant(&self);
        }
        assert(self.nanos as int * k as int <= 1_000_000_000 * u32::MAX as int) by (nonlinear_arith)
            requires
                self.nanos < 1_000_000_000,
        ;
        let total_nanos: u64 = self.nanos as u64 * k as u64;
        let extra_secs: u64 = total_nanos / 1_000_000_000;
        let nanos: u32 = (total_nanos % 1_000_000_000) as u32;
        assert(self.secs as int * k as int <= u64::MAX as int * u32::MAX as int) by (nonlinear_arith);
        let secs_mul: u128 = self.secs as u128 * k as u128;
        let secs_total: u128 = secs_mul + extra_secs as u128;
        let ghost n = self.as_nanos();
        proof {
            let s = self.secs as int;
            let kk = k as int;
            let t = total_nanos as int;
            assert(t == extra_secs as int * 1_000_000_000 + nanos as int) by {
                vstd::arithmetic::div_mod::lemma_fundamental_div_mod(t, 1_000_000_000);
            }
            assert(n * kk == s * kk * 1_000_000_000 + t) by (nonlinear_arith)
                requires
                    n == s * 1_000_000_000 + self.nanos as int,
                    t == self.nanos as int * kk,
            ;
            assert(n * kk == secs_total as int * 1_000_000_000 + nanos as int);
        }
        if secs_total > u64::MAX as u128 {
            proof {
                let st = secs_total as int;
                assert(st * 1_000_000_000 >= (u64::MAX as int + 1) * 1_000_000_000) by (
                nonlinear_arith)
                    requires
                        st >= u64::MAX as int + 1,
                ;
            }
            Delay { secs: u64::MAX, nanos: 999_999_999 }
        } else {
            proof {
                let st = secs_total as int;
                assert(st * 1_000_000_000 <= u64::MAX as int * 1_000_000_000) by (nonlinear_arith)
                    requires
                        0 <= st <= u64::MAX as int,
                ;
            }
            Delay { secs: secs_total as u64, nanos }
        }
    }

    /// Whether this span is longer than `other`.
    pub fn is_longer_than(&self, other: &Delay) -> (r: bool)
        ensures
            r == (self.as_nanos() > other.as_nanos()),
    {
        proof {
            use_type_invariant(self);
            use_type_invariant(other);
            self.lemma_split();
            other.lemma_split();
        }
        self.secs > other.secs || (self.secs == other.secs && self.nanos > other.nanos)
    }
}

} // verus!

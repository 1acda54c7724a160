//! Watch stream settings and the decisions around a live event stream:
//! reconnect backoff, overflow notices, the end-of-stream event and the
//! "sandbox not found" error.

use vstd::prelude::*;
use crate::delay::{max_nanos, saturating_product, Delay};
use crate::event::{EventPayload, LifecycleEvent, WatchEvent, WatchMetaEvent};
use crate::filter::EventFilter;
use crate::observe_error::ObserveError;
use crate::text::{push_str_chars, to_owned_string, u64_to_decimal, decimal};

verus! {

/// Default capacity for the event channel buffer.
pub const DEFAULT_CHANNEL_CAPACITY: usize = 1000;

/// Maximum backoff for auto-reconnect, in seconds.
pub const MAX_BACKOFF_SECS: u64 = 30;

/// Initial backoff for auto-reconnect, in seconds.
pub const INITIAL_BACKOFF_SECS: u64 = 1;

/// Configuration for a watch stream.
#[derive(Debug, Clone)]
pub struct WatchConfig {
    /// Name of the sandbox to watch.
    pub sandbox: String,
    /// Event type filter (empty = all events).
    pub filter: EventFilter,
    /// Output format: true for JSON lines, false for human-readable.
    pub json: bool,
    /// Whether the output is a TTY (for color decisions).
    pub is_tty: bool,
    /// Channel buffer capacity (defaults to 1000).
    pub channel_capacity: usize,
}

impl WatchConfig {
    /// A configuration with default settings: all events, human-readable,
    /// no TTY, default capacity.
    pub fn new(sandbox: &str) -> (r: Self)
        ensures
            r.sandbox@ == sandbox@,
            r.filter.types_spec().len() == 0,
            !r.json,
            !r.is_tty,
            r.channel_capacity == DEFAULT_CHANNEL_CAPACITY,
    {
        WatchConfig {
            sandbox: to_owned_string(sandbox),
            filter: EventFilter::all(),
            json: false,
            is_tty: false,
            channel_capacity: DEFAULT_CHANNEL_CAPACITY,
        }
    }

    /// Set the event filter.
    pub fn with_filter(self, filter: EventFilter) -> (r: Self)
        ensures
            r.filter == filter,
            r.sandbox == self.sandbox,
            r.json == self.json,
            r.is_tty == self.is_tty,
            r.channel_capacity == self.channel_capacity,
    {
        let mut c = self;
        c.filter = filter;
        c
    }

    /// Set JSON output mode.
    pub fn with_json(self, json: bool) -> (r: Self)
        ensures
            r.json == json,
            r.sandbox == self.sandbox,
            r.filter == self.filter,
            r.is_tty == self.is_tty,
            r.channel_capacity == self.channel_capacity,
    {
        let mut c = self;
        c.json = json;
        c
    }

    /// Set the TTY detection result.
    pub fn with_tty(self, is_tty: bool) -> (r: Self)
        ensures
            r.is_tty == is_tty,
            r.sandbox == self.sandbox,
            r.filter == self.filter,
            r.json == self.json,
            r.channel_capacity == self.channel_capacity,
    {
        let mut c = self;
        c.is_tty = is_tty;
        c
    }
}

// ---------------------------------------------------------------------------
// Reconnect backoff
// ---------------------------------------------------------------------------

/// The reconnect backoff after one of `current` nanoseconds: twice as
/// long, capped at `MAX_BACKOFF_SECS` seconds.
pub open spec fn backoff_after(current: int) -> int {
    let doubled = saturating_product(current, 2);
    if doubled > MAX_BACKOFF_SECS * 1_000_000_000 {
        MAX_BACKOFF_SECS * 1_000_000_000
    } else {
        doubled
    }
}

/// The initial backoff for reconnect attempts: one second.
pub fn initial_backoff() -> (r: Delay)
    ensures
        r.as_nanos() == INITIAL_BACKOFF_SECS * 1_000_000_000,
{
    Delay::from_secs(INITIAL_BACKOFF_SECS)
}

/// The next reconnect backoff: double the current one, capped at thirty
/// seconds (1 s, 2 s, 4 s, 8 s, 16 s, 30 s, 30 s, …).
pub fn next_backoff(current: Delay) -> (r: Delay)
    ensures
        r.as_nanos() == backoff_after(current.as_nanos()),
{
    let doubled = current.saturating_mul(2);
    let max = Delay::from_secs(MAX_BACKOFF_SECS);
    if doubled.is_longer_than(&max) {
        max
    } else {
        doubled
    }
}

/// The reconnect backoff never exceeds thirty seconds, and below fifteen
/// seconds it doubles; from the initial second it runs 1 s, 2 s, 4 s, 8 s,
/// 16 s, 30 s, 30 s.
pub proof fn lemma_reconnect_backoff_capped(current: int)
    requires
        0 <= current <= max_nanos(),
    ensures
        0 <= backoff_after(current) <= MAX_BACKOFF_SECS * 1_000_000_000,
        current <= MAX_BACKOFF_SECS * 1_000_000_000 / 2 ==> backoff_after(current) == 2 * current,
        backoff_after(1_000_000_000) == 2_000_000_000,
        backoff_after(2_000_000_000) == 4_000_000_000,
        backoff_after(4_000_000_000) == 8_000_000_000,
        backoff_after(8_000_000_000) == 16_000_000_000,
        backoff_after(16_000_000_000) == 30_000_000_000,
        backoff_after(30_000_000_000) == 30_000_000_000,
{
}

// ---------------------------------------------------------------------------
// Platform, overflow and lifecycle events
// ---------------------------------------------------------------------------

/// Why eBPF probes are not available. They are not used yet on any
/// platform, so there is always a reason; on Linux it says so, elsewhere it
/// says the platform lacks eBPF.
pub fn check_ebpf_availability(is_linux: bool) -> (r: Option<String>)
    ensures
        is_linux ==> (r matches Some(m) && m@
            == "eBPF probes not yet implemented (DS-017). Using log-based monitoring."@),
        !is_linux ==> (r matches Some(m) && m@
            == "eBPF unavailable on this platform. Falling back to log-based monitoring. Some event types may be limited."@),
{
    if is_linux {
        Some(to_owned_string("eBPF probes not yet implemented (DS-017). Using log-based monitoring."))
    } else {
        Some(
            to_owned_string(
                "eBPF unavailable on this platform. Falling back to log-based monitoring. Some event types may be limited.",
            ),
        )
    }
}

/// The overflow message for a dropped-event count.
pub open spec fn overflow_text(dropped: u64) -> Seq<char> {
    decimal(dropped as nat) + " events dropped due to buffer overflow"@
}

/// The overflow notice to emit after a drop, if any: after the first drop
/// and every hundredth one after it (counts 1, 101, 201, …).
pub fn overflow_notice(dropped: u64) -> (r: Option<WatchMetaEvent>)
    ensures
        dropped % 100 == 1 <==> r is Some,
        r matches Some(m) ==> m.overflow_count == Some(dropped) && m.parse_error_offset is None
            && m.message@ == overflow_text(dropped),
{
    if dropped % 100 == 1 {
        let mut message = u64_to_decimal(dropped);
        push_str_chars(&mut message, " events dropped due to buffer overflow");
        Some(WatchMetaEvent { overflow_count: Some(dropped), parse_error_offset: None, message })
    } else {
        None
    }
}

/// A "sandbox deleted" lifecycle event, for a clean end of the stream. The
/// previous phase is the caller's: a sandbox may be deleted from any phase.
pub fn sandbox_deleted_event(sandbox: &str, previous_phase: Option<&str>) -> (r: WatchEvent)
    ensures
        r.sandbox_spec()@ == sandbox@,
        r.payload_spec() matches EventPayload::SandboxStateChange(lc) && lc.phase@ == "deleted"@
            && match previous_phase {
            Some(p) => lc.previous_phase matches Some(q) && q@ == p@,
            None => lc.previous_phase is None,
        },
{
    let prev = match previous_phase {
        Some(p) => Some(to_owned_string(p)),
        None => None,
    };
    WatchEvent::new(
        sandbox,
        EventPayload::SandboxStateChange(
            LifecycleEvent { phase: to_owned_string("deleted"), previous_phase: prev },
        ),
    )
}

/// The available names joined by ", ".
pub open spec fn joined_names(names: Seq<String>) -> Seq<char>
    decreases names.len(),
{
    if names.len() == 0 {
        Seq::empty()
    } else if names.len() == 1 {
        names[0]@
    } else {
        joined_names(names.drop_last()) + ", "@ + names.last()@
    }
}

/// A "sandbox not found" error listing the available sandboxes, or
/// "(none)" when there are none.
pub fn sandbox_not_found_error(name: &str, available: &Vec<String>) -> (r: ObserveError)
    ensures
        r matches ObserveError::SandboxNotFound { name: n, available: a } && n@ == name@ && a@
            == if available@.len() == 0 {
            "(none)"@
        } else {
            joined_names(available@)
        },
{
    let listed = if available.len() == 0 {
        to_owned_string("(none)")
    } else {
        let mut s = String::new();
        let mut i: usize = 0;
        while i < available.len()
            invariant
                i <= available@.len(),
                s@ == joined_names(available@.take(i as int)),
            decreases available.len() - i,
        {
            if i > 0 {
                push_str_chars(&mut s, ", ");
            }
            push_str_chars(&mut s, available[i].as_str());
            proof {
                let t = available@.take(i + 1);
                assert(t.drop_last() =~= available@.take(i as int));
                if i == 0 {
                    assert(available@.take(0) =~= Seq::<String>::empty());
                }
            }
            i = i + 1;
        }
        assert(available@.take(i as int) =~= available@);
        s
    };
    ObserveError::SandboxNotFound { name: to_owned_string(name), available: listed }
}

} // verus!

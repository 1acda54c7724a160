//! Errors of sandbox observation.

use vstd::prelude::*;
use crate::text::{decimal, push_str_chars, to_owned_string, u64_to_decimal};

verus! {

/// `serde_json::Error`, carried opaque.
#[verifier::external_type_specification]
#[verifier::external_body]
pub struct ExJsonError(serde_json::Error);

/// `std::io::Error`, carried opaque.
#[verifier::external_type_specification]
#[verifier::external_body]
pub struct ExIoError(std::io::Error);

/// Errors that can occur during sandbox watch operations.
#[derive(Debug)]
#[non_exhaustive]
pub enum ObserveError {
    /// The requested sandbox does not exist.
    SandboxNotFound {
        /// Name that was requested.
        name: String,
        /// Comma-separated list of available sandbox names.
        available: String,
    },
    /// A filter string could not be parsed into a known event type.
    InvalidFilter {
        /// The filter string that was not recognized.
        filter: String,
    },
    /// Failed to serialize an event to JSON.
    Serialization {
        /// The underlying `serde_json` error.
        source: serde_json::Error,
    },
    /// Connection to the event source was lost.
    ConnectionLost {
        /// Description of why the connection was lost.
        reason: String,
    },
    /// Failed to parse a log line into a structured event.
    ParseError {
        /// Byte offset in the log stream where the error occurred.
        offset: u64,
        /// Description of the parse failure.
        reason: String,
    },
    /// An I/O error occurred during event streaming.
    Io {
        /// The underlying I/O error.
        source: std::io::Error,
    },
}

/// The message of an observation error whose text is the library's own
/// (`None` for the two that wrap an outside error's message).
pub open spec fn observe_error_text(e: ObserveError) -> Option<Seq<char>> {
    match e {
        ObserveError::SandboxNotFound { name, available } => Some(
            "sandbox '"@ + name@ + "' not found. Available sandboxes: "@ + available@,
        ),
        ObserveError::InvalidFilter { filter } => Some(
            "unknown event type filter '"@ + filter@
                + "'. Valid types: command, file, network, policy, mcp, lifecycle, inference, watch"@,
        ),
        ObserveError::ConnectionLost { reason } => Some(
            "connection to event source lost: "@ + reason@ + ". Reconnecting..."@,
        ),
        ObserveError::ParseError { offset, reason } => Some(
            "failed to parse log line at byte offset "@ + decimal(offset as nat) + ": "@ + reason@,
        ),
        _ => None,
    }
}

/// The text of a `serde_json::Error` (its `Display`). Nothing is claimed
/// of it.
#[verifier::external_body]
fn json_error_text(e: &serde_json::Error) -> String {
    e.to_string()
}

/// The text of a `std::io::Error` (its `Display`). Nothing is claimed of it.
#[verifier::external_body]
fn io_error_text(e: &std::io::Error) -> String {
    e.to_string()
}

impl ObserveError {
    /// The error's message.
    pub fn to_display_string(&self) -> (r: String)
        ensures
            observe_error_text(*self) matches Some(t) ==> r@ == t,
            *self is Serialization ==> "failed to serialize event to JSON: "@.is_prefix_of(r@),
            *self is Io ==> "I/O error during event streaming: "@.is_prefix_of(r@),
    {
        match self {
            ObserveError::SandboxNotFound { name, available } => {
                let mut s = to_owned_string("sandbox '");
                push_str_chars(&mut s, name.as_str());
                push_str_chars(&mut s, "' not found. Available sandboxes: ");
                push_str_chars(&mut s, available.as_str());
                s
            },
            ObserveError::InvalidFilter { filter } => {
                let mut s = to_owned_string("unknown event type filter '");
                push_str_chars(&mut s, filter.as_str());
                push_str_chars(
                    &mut s,
                    "'. Valid types: command, file, network, policy, mcp, lifecycle, inference, watch",
                );
                s
            },
            ObserveError::Serialization { source } => {
                let mut s = to_owned_string("failed to serialize event to JSON: ");
                let t = json_error_text(source);
                push_str_chars(&mut s, t.as_str());
                s
            },
            ObserveError::ConnectionLost { reason } => {
                let mut s = to_owned_string("connection to event source lost: ");
                push_str_chars(&mut s, reason.as_str());
                push_str_chars(&mut s, ". Reconnecting...");
                s
            },
            ObserveError::ParseError { offset, reason } => {
                let mut s = to_owned_string("failed to parse log line at byte offset ");
                push_str_chars(&mut s, u64_to_decimal(*offset).as_str());
                push_str_chars(&mut s, ": ");
                push_str_chars(&mut s, reason.as_str());
                s
            },
            ObserveError::Io { source } => {
                let mut s = to_owned_string("I/O error during event streaming: ");
                let t = io_error_text(source);
                push_str_chars(&mut s, t.as_str());
                s
            },
        }
    }
}

} // verus!

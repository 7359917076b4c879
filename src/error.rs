//! The library's error type.

use vstd::prelude::*;

verus! {

/// Declares `regex::Error` so that it can travel in an error value.
#[verifier::external_type_specification]
#[verifier::external_body]
pub struct ExRegexError(regex::Error);

/// What can go wrong when driving a terminal session.
#[derive(Debug)]
pub enum TermwrightError {
    /// PTY-level I/O failed.
    Pty(String),
    /// A wait did not see its condition before the deadline.
    Timeout { condition: String, timeout_ms: u64 },
    /// The child exited unexpectedly.
    ProcessExited { code: Option<i32> },
    /// A text pattern was not on screen.
    PatternNotFound { pattern: String },
    InvalidRegion(String),
    SpawnFailed(String),
    NotRunning,
    Json(String),
    Regex(regex::Error),
    Image(String),
    Font(String),
    /// The daemon's socket transport failed.
    Ipc(String),
    /// A request or reply did not follow the protocol.
    Protocol(String),
}

} // verus!

//! The daemon's request and response records.

use vstd::prelude::*;

verus! {

/// Declares `serde_json::Value`, a JSON value carried through unchanged.
#[verifier::external_type_specification]
#[verifier::external_body]
pub struct ExJsonValue(serde_json::Value);

/// The protocol version that `handshake` reports.
pub const PROTOCOL_VERSION: u32 = 1;

/// A request: its id, the method's name and its parameters.
#[derive(Debug)]
pub struct Request {
    pub id: u64,
    pub method: String,
    pub params: serde_json::Value,
}

/// An error reply's code and message.
#[derive(Debug)]
pub struct ResponseError {
    pub code: String,
    pub message: String,
    pub data: Option<serde_json::Value>,
}

/// A reply: the request's id and either a result (`None` is `null`) or an error.
#[derive(Debug)]
pub struct Response {
    pub id: u64,
    pub result: Option<serde_json::Value>,
    pub error: Option<ResponseError>,
}

impl Response {
    /// A success carrying `value`.
    pub fn ok(id: u64, value: serde_json::Value) -> (r: Self)
        ensures
            r.id == id,
            r.result == Some(value),
            r.error is None,
    {
        Response { id, result: Some(value), error: None }
    }

    /// A success with a `null` result.
    pub fn ok_empty(id: u64) -> (r: Self)
        ensures
            r.id == id,
            r.result is None,
            r.error is None,
    {
        Response { id, result: None, error: None }
    }

    /// A failure with `code` and `message`.
    pub fn err(id: u64, code: String, message: String) -> (r: Self)
        ensures
            r.id == id,
            r.result is None,
            r.error matches Some(e) && e.code == code && e.message == message && e.data is None,
    {
        Response { id, result: None, error: Some(ResponseError { code, message, data: None }) }
    }
}

/// What `handshake` returns.
#[derive(Debug, Clone)]
pub struct HandshakeResult {
    pub protocol_version: u32,
    pub termwright_version: String,
    pub pid: u32,
}

impl HandshakeResult {
    /// The handshake of a daemon of version `version` running as process `pid`.
    pub fn new(version: String, pid: u32) -> (r: Self)
        ensures
            r.protocol_version == PROTOCOL_VERSION,
            r.termwright_version == version,
            r.pid == pid,
    {
        HandshakeResult { protocol_version: PROTOCOL_VERSION, termwright_version: version, pid }
    }
}

/// How `screen` renders the screen.
#[derive(Debug, Clone, Copy, PartialEq, Eq, Structural)]
pub enum ScreenFormat {
    Text,
    Json,
    JsonCompact,
}

#[derive(Debug, Clone, Copy)]
pub struct ScreenParams {
    pub format: ScreenFormat,
}

impl ScreenParams {
    /// The format when a request names none.
    pub fn default_format() -> (r: ScreenFormat)
        ensures
            r == ScreenFormat::Text,
    {
        ScreenFormat::Text
    }
}

#[derive(Debug, Clone)]
pub struct ScreenshotResult {
    pub png_base64: String,
}

#[derive(Debug, Clone)]
pub struct TypeParams {
    pub text: String,
}

#[derive(Debug, Clone)]
pub struct PressParams {
    pub key: String,
}

#[derive(Debug, Clone, Copy)]
pub struct HotkeyParams {
    pub ctrl: Option<bool>,
    pub alt: Option<bool>,
    pub ch: char,
}

#[derive(Debug, Clone)]
pub struct RawParams {
    pub bytes_base64: String,
}

#[derive(Debug, Clone)]
pub struct MouseMoveParams {
    pub row: u16,
    pub col: u16,
    pub buttons: Option<Vec<String>>,
}

#[derive(Debug, Clone)]
pub struct MouseClickParams {
    pub row: u16,
    pub col: u16,
    pub button: Option<String>,
}

#[derive(Debug, Clone)]
pub struct MouseScrollParams {
    pub row: u16,
    pub col: u16,
    pub direction: String,
    pub count: Option<u16>,
}

#[derive(Debug, Clone)]
pub struct WaitForTextParams {
    pub text: String,
    pub timeout_ms: Option<u64>,
}

#[derive(Debug, Clone)]
pub struct WaitForPatternParams {
    pub pattern: String,
    pub timeout_ms: Option<u64>,
}

#[derive(Debug, Clone, Copy)]
pub struct WaitForIdleParams {
    pub idle_ms: u64,
    pub timeout_ms: Option<u64>,
}

#[derive(Debug, Clone, Copy)]
pub struct WaitForExitParams {
    pub timeout_ms: Option<u64>,
}

#[derive(Debug, Clone)]
pub struct WaitForTextGoneParams {
    pub text: String,
    pub timeout_ms: Option<u64>,
}

#[derive(Debug, Clone)]
pub struct WaitForPatternGoneParams {
    pub pattern: String,
    pub timeout_ms: Option<u64>,
}

#[derive(Debug, Clone, Copy)]
pub struct WaitForCursorAtParams {
    pub row: u16,
    pub col: u16,
    pub timeout_ms: Option<u64>,
}

#[derive(Debug, Clone)]
pub struct NotExpectTextParams {
    pub text: String,
}

#[derive(Debug, Clone)]
pub struct NotExpectPatternParams {
    pub pattern: String,
}

#[derive(Debug, Clone, Copy)]
pub struct WaitForExitResult {
    pub exit_code: i32,
}

#[derive(Debug, Clone, Copy)]
pub struct ResizeParams {
    pub cols: u16,
    pub rows: u16,
}

#[derive(Debug, Clone, Copy)]
pub struct StatusResult {
    pub exited: bool,
    pub exit_code: Option<i32>,
}

impl StatusResult {
    /// The status of a child whose exit slot holds `exit`.
    pub fn from_exit(exit: Option<i32>) -> (r: Self)
        ensures
            r.exited == exit is Some,
            r.exit_code == exit,
    {
        StatusResult { exited: exit.is_some(), exit_code: exit }
    }
}

} // verus!

//! The daemon's decisions: which method a request names, what each method's
//! parameters turn into, and the reply for each outcome.

use base64::Engine;
use vstd::prelude::*;
use crate::error::TermwrightError;
use crate::keys::{key_named, parse_key, Key};
use crate::mouse::{
    button_named, direction_named, mouse_click_sequence, mouse_move_sequence,
    mouse_scroll_sequence, move_code, normalized, parse_mouse_buttons, press_code_of, repeated,
    scroll_code_of, sgr_bytes, MouseButton, ScrollDirection,
};
use crate::patterns::{pattern_is_match, regex_compiles, regex_found};
use crate::protocol::{
    HotkeyParams, MouseClickParams, MouseMoveParams, MouseScrollParams, PressParams, RawParams,
    Response,
};
use crate::screen::{Position, Screen};
use crate::text::{
    chars_are, chars_of, decimal_chars, is_substring, push_decimal_chars, push_str, string_of,
};
use crate::wait::{WaitBuilder, WaitCondition, DEFAULT_TIMEOUT_MS};

verus! {

/// Where the daemon listens.
#[derive(Debug, Clone)]
pub struct DaemonConfig {
    pub socket_path: String,
}

impl DaemonConfig {
    pub fn new(socket_path: String) -> (r: Self)
        ensures
            r.socket_path == socket_path,
    {
        DaemonConfig { socket_path }
    }
}

/// The methods of the protocol.
#[derive(Debug, Clone, PartialEq, Eq)]
pub enum Method {
    Handshake,
    Status,
    Screen,
    Screenshot,
    Type,
    Press,
    Hotkey,
    Raw,
    MouseClick,
    MouseMove,
    MouseScroll,
    FindText,
    FindPattern,
    DetectBoxes,
    WaitForText,
    WaitForPattern,
    WaitForTextGone,
    WaitForPatternGone,
    WaitForIdle,
    WaitForCursorAt,
    WaitForExit,
    NotExpectText,
    NotExpectPattern,
    Resize,
    Close,
    /// A name that is not a method, kept for the error message.
    Unknown(String),
}

/// The method named `n`, or `None` for an unknown name.
pub open spec fn method_named(n: Seq<char>) -> Option<Method> {
    if n == "handshake"@ {
        Some(Method::Handshake)
    } else if n == "status"@ {
        Some(Method::Status)
    } else if n == "screen"@ {
        Some(Method::Screen)
    } else if n == "screenshot"@ {
        Some(Method::Screenshot)
    } else if n == "type"@ {
        Some(Method::Type)
    } else if n == "press"@ {
        Some(Method::Press)
    } else if n == "hotkey"@ {
        Some(Method::Hotkey)
    } else if n == "raw"@ {
        Some(Method::Raw)
    } else if n == "mouse_click"@ {
        Some(Method::MouseClick)
    } else if n == "mouse_move"@ {
        Some(Method::MouseMove)
    } else if n == "mouse_scroll"@ {
        Some(Method::MouseScroll)
    } else if n == "find_text"@ {
        Some(Method::FindText)
    } else if n == "find_pattern"@ {
        Some(Method::FindPattern)
    } else if n == "detect_boxes"@ {
        Some(Method::DetectBoxes)
    } else if n == "wait_for_text"@ {
        Some(Method::WaitForText)
    } else if n == "wait_for_pattern"@ {
        Some(Method::WaitForPattern)
    } else if n == "wait_for_text_gone"@ {
        Some(Method::WaitForTextGone)
    } else if n == "wait_for_pattern_gone"@ {
        Some(Method::WaitForPatternGone)
    } else if n == "wait_for_idle"@ {
        Some(Method::WaitForIdle)
    } else if n == "wait_for_cursor_at"@ {
        Some(Method::WaitForCursorAt)
    } else if n == "wait_for_exit"@ {
        Some(Method::WaitForExit)
    } else if n == "not_expect_text"@ {
        Some(Method::NotExpectText)
    } else if n == "not_expect_pattern"@ {
        Some(Method::NotExpectPattern)
    } else if n == "resize"@ {
        Some(Method::Resize)
    } else if n == "close"@ {
        Some(Method::Close)
    } else {
        None
    }
}

/// The method a request names; unknown names are kept.
pub fn method_of(name: &str) -> (r: Method)
    ensures
        match method_named(name@) {
            Some(m) => r == m,
            None => r matches Method::Unknown(n) && n@ == name@,
        },
{
    let n = chars_of(name);
    if chars_are(&n, "handshake") {
        Method::Handshake
    } else if chars_are(&n, "status") {
        Method::Status
    } else if chars_are(&n, "screen") {
        Method::Screen
    } else if chars_are(&n, "screenshot") {
        Method::Screenshot
    } else if chars_are(&n, "type") {
        Method::Type
    } else if chars_are(&n, "press") {
        Method::Press
    } else if chars_are(&n, "hotkey") {
        Method::Hotkey
    } else if chars_are(&n, "raw") {
        Method::Raw
    } else if chars_are(&n, "mouse_click") {
        Method::MouseClick
    } else if chars_are(&n, "mouse_move") {
        Method::MouseMove
    } else if chars_are(&n, "mouse_scroll") {
        Method::MouseScroll
    } else if chars_are(&n, "find_text") {
        Method::FindText
    } else if chars_are(&n, "find_pattern") {
        Method::FindPattern
    } else if chars_are(&n, "detect_boxes") {
        Method::DetectBoxes
    } else if chars_are(&n, "wait_for_text") {
        Method::WaitForText
    } else if chars_are(&n, "wait_for_pattern") {
        Method::WaitForPattern
    } else if chars_are(&n, "wait_for_text_gone") {
        Method::WaitForTextGone
    } else if chars_are(&n, "wait_for_pattern_gone") {
        Method::WaitForPatternGone
    } else if chars_are(&n, "wait_for_idle") {
        Method::WaitForIdle
    } else if chars_are(&n, "wait_for_cursor_at") {
        Method::WaitForCursorAt
    } else if chars_are(&n, "wait_for_exit") {
        Method::WaitForExit
    } else if chars_are(&n, "not_expect_text") {
        Method::NotExpectText
    } else if chars_are(&n, "not_expect_pattern") {
        Method::NotExpectPattern
    } else if chars_are(&n, "resize") {
        Method::Resize
    } else if chars_are(&n, "close") {
        Method::Close
    } else {
        Method::Unknown(string_of(&n))
    }
}

/// The reply to request `id` for `method`, given what carrying it out gave:
/// a result (`None` for `null`) or an error's message.  `close` is answered
/// with the error code `closing`, an unknown method with `unknown_method`,
/// and a failure with `error`.
pub fn respond(id: u64, method: &Method, outcome: Result<Option<serde_json::Value>, String>) -> (r: Response)
    ensures
        r.id == id,
        *method is Close ==> (r.result is None && (r.error matches Some(e) && e.code@
            == "closing"@ && e.message@ == "closing"@)),
        method matches Method::Unknown(n) ==> (r.result is None && (r.error matches Some(e)
            && e.code@ == "unknown_method"@ && e.message@ == "unknown method: "@ + n@)),
        !(*method is Close) && !(*method is Unknown) ==> match outcome {
            Ok(v) => r.error is None && r.result == v,
            Err(m) => r.result is None && (r.error matches Some(e) && e.code@ == "error"@
                && e.message == m),
        },
{
    match method {
        Method::Close => Response::err(
            id,
            string_of(&chars_of("closing")),
            string_of(&chars_of("closing")),
        ),
        Method::Unknown(name) => {
            let mut msg: Vec<char> = Vec::new();
            push_str(&mut msg, "unknown method: ");
            push_str(&mut msg, name.as_str());
            Response::err(id, string_of(&chars_of("unknown_method")), string_of(&msg))
        },
        _ => match outcome {
            Ok(Some(v)) => Response::ok(id, v),
            Ok(None) => Response::ok_empty(id),
            Err(m) => Response::err(id, string_of(&chars_of("error")), m),
        },
    }
}

/// The reply to a line that is not a request: id 0 and code `parse_error`.
pub fn parse_error_response(message: String) -> (r: Response)
    ensures
        r.id == 0,
        r.result is None,
        r.error matches Some(e) && e.code@ == "parse_error"@ && e.message == message,
{
    Response::err(0, string_of(&chars_of("parse_error")), message)
}

/// Whether `resp` tells the server to shut down: its error code is `closing`.
pub fn is_closing(resp: &Response) -> (r: bool)
    ensures
        r == (resp.error matches Some(e) && e.code@ == "closing"@),
{
    match &resp.error {
        Some(e) => {
            let c = chars_of(e.code.as_str());
            chars_are(&c, "closing")
        },
        None => false,
    }
}

/// The key a `hotkey` request presses: Ctrl with the character when `ctrl`,
/// else Alt with it when `alt`, else the character.
pub fn hotkey_key(params: &HotkeyParams) -> (r: Key)
    ensures
        r == if params.ctrl == Some(true) {
            Key::Ctrl(params.ch)
        } else if params.alt == Some(true) {
            Key::Alt(params.ch)
        } else {
            Key::Char(params.ch)
        },
{
    let ctrl = match params.ctrl {
        Some(b) => b,
        None => false,
    };
    let alt = match params.alt {
        Some(b) => b,
        None => false,
    };
    if ctrl {
        Key::Ctrl(params.ch)
    } else if alt {
        Key::Alt(params.ch)
    } else {
        Key::Char(params.ch)
    }
}

/// The key a `press` request names.
pub fn press_key(params: &PressParams) -> (r: Result<Key, TermwrightError>)
    ensures
        r is Ok <==> key_named(normalized(params.key@), params.key@) is Some,
        r matches Ok(k) ==> key_named(normalized(params.key@), params.key@) == Some(k),
        r matches Err(e) ==> e is Protocol,
{
    parse_key(params.key.as_str())
}

/// The bytes that standard base64 text `s` decodes to, `None` when it is
/// not standard base64.
pub uninterp spec fn base64_decoded(s: Seq<char>) -> Option<Seq<u8>>;

/// Relies on base64's standard engine `decode`: the decoded bytes, or `None`
/// for text that is not standard padded base64; it depends on the text alone.
#[verifier::external_body]
fn decode_base64(s: &str) -> (r: Option<Vec<u8>>)
    ensures
        match r {
            Some(v) => base64_decoded(s@) == Some(v@),
            None => base64_decoded(s@) is None,
        },
{
    base64::engine::general_purpose::STANDARD.decode(s).ok()
}

/// The bytes a `raw` request sends; a protocol error for text that is not
/// base64.
pub fn raw_bytes(params: &RawParams) -> (r: Result<Vec<u8>, TermwrightError>)
    ensures
        match base64_decoded(params.bytes_base64@) {
            Some(b) => r matches Ok(v) && v@ == b,
            None => r matches Err(e) && e is Protocol,
        },
{
    match decode_base64(params.bytes_base64.as_str()) {
        Some(v) => Ok(v),
        None => Err(TermwrightError::Protocol(string_of(&chars_of("invalid base64 in bytes_base64")))),
    }
}

/// The bytes of a `mouse_click`: a press and a release of the named button,
/// the left one when none is named.
pub fn mouse_click_bytes(params: &MouseClickParams) -> (r: Result<Vec<u8>, TermwrightError>)
    ensures
        ({
            let name = match params.button {
                Some(b) => b@,
                None => "left"@,
            };
            match button_named(normalized(name)) {
                Some(b) => r matches Ok(v) && v@ == sgr_bytes(press_code_of(b), params.row, params.col, true)
                    + sgr_bytes(3, params.row, params.col, false),
                None => r matches Err(e) && e is Protocol,
            }
        }),
{
    let name: &str = match &params.button {
        Some(b) => b.as_str(),
        None => "left",
    };
    match MouseButton::from_name(name) {
        Ok(b) => Ok(mouse_click_sequence(params.row, params.col, b)),
        Err(m) => Err(TermwrightError::Protocol(m)),
    }
}

/// The bytes of a `mouse_move` with the named buttons held.
pub fn mouse_move_bytes(params: &MouseMoveParams) -> (r: Result<Vec<u8>, TermwrightError>)
    ensures
        match params.buttons {
            None => r matches Ok(v) && v@ == sgr_bytes(move_code(seq![]), params.row, params.col, true),
            Some(names) => {
                &&& r is Ok <==> forall|i: int|
                    0 <= i < names@.len() ==> button_named(normalized(#[trigger] names@[i]@)) is Some
                &&& r matches Ok(v) ==> names@.len() == 0 && v@ == sgr_bytes(move_code(seq![]), params.row, params.col, true)
                    || names@.len() > 0 && v@ == sgr_bytes(
                    move_code(seq![button_named(normalized(names@[0]@))->0]),
                    params.row,
                    params.col,
                    true,
                )
                &&& r matches Err(e) ==> e is Protocol
            },
        },
{
    let held = match parse_mouse_buttons(params.buttons.as_ref()) {
        Ok(h) => h,
        Err(e) => return Err(e),
    };
    let r = mouse_move_sequence(params.row, params.col, &held);
    proof {
        if held@.len() > 0 {
            assert(move_code(held@) == move_code(seq![held@[0]]));
        } else {
            assert(move_code(held@) == move_code(seq![]));
        }
    }
    Ok(r)
}

/// The bytes of a `mouse_scroll`: `count` wheel events (one when no count is
/// given) in the named direction.
pub fn mouse_scroll_bytes(params: &MouseScrollParams) -> (r: Result<Vec<u8>, TermwrightError>)
    ensures
        match direction_named(normalized(params.direction@)) {
            Some(d) => r matches Ok(v) && v@ == repeated(
                sgr_bytes(scroll_code_of(d), params.row, params.col, true),
                match params.count {
                    Some(c) => c as nat,
                    None => 1,
                },
            ),
            None => r matches Err(e) && e is Protocol,
        },
{
    let d = match ScrollDirection::from_name(params.direction.as_str()) {
        Ok(d) => d,
        Err(m) => return Err(TermwrightError::Protocol(m)),
    };
    let count: u16 = match params.count {
        Some(c) => c,
        None => 1,
    };
    Ok(mouse_scroll_sequence(params.row, params.col, d, count))
}

/// A wait for `condition` with the given timeout, or the default one.
pub fn wait_request(condition: WaitCondition, timeout_ms: Option<u64>) -> (r: WaitBuilder)
    ensures
        r@.condition == condition,
        r@.timeout_ms == match timeout_ms {
            Some(t) => t,
            None => DEFAULT_TIMEOUT_MS,
        },
{
    let w = WaitBuilder::new(condition);
    match timeout_ms {
        Some(t) => w.timeout(t),
        None => w,
    }
}

/// Fails with a protocol error when `text` is on the screen.
pub fn not_expect_text(screen: &Screen, text: &str) -> (r: Result<(), TermwrightError>)
    ensures
        r is Ok <==> !is_substring(text@, screen.text_view()),
        r matches Err(e) ==> e matches TermwrightError::Protocol(m) && m@ == "unexpected text on screen: "@ + text@,
{
    if screen.contains(text) {
        let mut msg: Vec<char> = Vec::new();
        push_str(&mut msg, "unexpected text on screen: ");
        push_str(&mut msg, text);
        Err(TermwrightError::Protocol(string_of(&msg)))
    } else {
        Ok(())
    }
}

/// Fails when the regular expression `pattern` matches the screen's text,
/// or does not compile.
pub fn not_expect_pattern(screen: &Screen, pattern: &str) -> (r: Result<(), TermwrightError>)
    ensures
        !regex_compiles(pattern@) ==> (r matches Err(e) && e is Regex),
        regex_compiles(pattern@) ==> (r is Ok <==> !regex_found(pattern@, screen.text_view())),
        regex_compiles(pattern@) ==> (r matches Err(e) ==> e matches TermwrightError::Protocol(m)
            && m@ == "unexpected pattern on screen: "@ + pattern@),
{
    let t = screen.text();
    match pattern_is_match(pattern, t.as_str()) {
        Err(e) => Err(TermwrightError::Regex(e)),
        Ok(false) => Ok(()),
        Ok(true) => {
            let mut msg: Vec<char> = Vec::new();
            push_str(&mut msg, "unexpected pattern on screen: ");
            push_str(&mut msg, pattern);
            Err(TermwrightError::Protocol(string_of(&msg)))
        },
    }
}

/// A wait for the cursor at `(row, col)`.
pub fn cursor_condition(row: u16, col: u16) -> (r: WaitCondition)
    ensures
        r == WaitCondition::CursorAt(Position { row, col }),
{
    WaitCondition::CursorAt(Position::new(row, col))
}

/// The ids a client gives its requests: 1, 2, 3, and so on, wrapping.
#[derive(Debug)]
pub struct RequestIds {
    next: u64,
}

impl View for RequestIds {
    type V = u64;

    closed spec fn view(&self) -> u64 {
        self.next
    }
}

impl RequestIds {
    pub fn new() -> (r: Self)
        ensures
            r@ == 1,
    {
        RequestIds { next: 1 }
    }

    /// The id of the next request.
    pub fn take(&mut self) -> (r: u64)
        ensures
            r == old(self)@,
            final(self)@ == if old(self)@ == u64::MAX {
                0
            } else {
                (old(self)@ + 1) as u64
            },
    {
        let id = self.next;
        self.next = if id == u64::MAX {
            0
        } else {
            id + 1
        };
        id
    }
}

/// What a client makes of the reply to its request `expected_id`: a
/// protocol error when the ids differ or the reply is an error, else the
/// result.
pub fn reply_outcome(expected_id: u64, resp: Response) -> (r: Result<Option<serde_json::Value>, TermwrightError>)
    ensures
        resp.id != expected_id ==> (r matches Err(TermwrightError::Protocol(m)) && m@
            == "mismatched response id: expected "@ + decimal_chars(expected_id as nat) + " got "@
            + decimal_chars(resp.id as nat)),
        resp.id == expected_id ==> match resp.error {
            Some(e) => r matches Err(TermwrightError::Protocol(m)) && m@ == e.code@ + ": "@
                + e.message@,
            None => r == Ok::<Option<serde_json::Value>, TermwrightError>(resp.result),
        },
{
    if resp.id != expected_id {
        let mut msg: Vec<char> = Vec::new();
        push_str(&mut msg, "mismatched response id: expected ");
        push_decimal_chars(&mut msg, expected_id);
        push_str(&mut msg, " got ");
        push_decimal_chars(&mut msg, resp.id);
        return Err(TermwrightError::Protocol(string_of(&msg)));
    }
    match resp.error {
        Some(e) => {
            let mut msg: Vec<char> = Vec::new();
            push_str(&mut msg, e.code.as_str());
            push_str(&mut msg, ": ");
            push_str(&mut msg, e.message.as_str());
            Err(TermwrightError::Protocol(string_of(&msg)))
        },
        None => Ok(resp.result),
    }
}

} // verus!

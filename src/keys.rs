//! Keys and the bytes a terminal program reads for them.

use vstd::prelude::*;
use vstd::utf8::encode_utf8;
use crate::error::TermwrightError;
use crate::mouse::normalized;
use crate::text::{chars_are, chars_of, lowercase, push_str, string_of, trim_chars};

verus! {

/// A keyboard key or key combination.
#[derive(Debug, Clone, Copy, PartialEq, Eq, Structural)]
pub enum Key {
    /// A printable character.
    Char(char),
    Enter,
    Tab,
    Escape,
    Backspace,
    Delete,
    Up,
    Down,
    Left,
    Right,
    Home,
    End,
    PageUp,
    PageDown,
    /// Function key F1..F12; other indexes have no encoding.
    F(u8),
    /// Ctrl together with a letter.
    Ctrl(char),
    /// Alt together with a character.
    Alt(char),
}

/// `ESC`.
pub const ESC: u8 = 0x1b;

/// The code of the ASCII lower-case form of a character; others keep their code.
pub open spec fn ascii_lower_code(c: char) -> u32 {
    let u = c as u32;
    if 65 <= u && u <= 90 {
        (u + 32) as u32
    } else {
        u
    }
}

/// The control byte for Ctrl with `c`: `c - 'a' + 1` for a letter, nothing otherwise.
pub open spec fn ctrl_bytes(c: char) -> Seq<u8> {
    let l = ascii_lower_code(c);
    if 97 <= l && l <= 122 {
        seq![(l - 96) as u8]
    } else {
        seq![]
    }
}

/// The bytes of function key `n`.
pub open spec fn function_key_bytes(n: u8) -> Seq<u8> {
    if n == 1 {
        seq![ESC, 0x4f, 0x50]
    } else if n == 2 {
        seq![ESC, 0x4f, 0x51]
    } else if n == 3 {
        seq![ESC, 0x4f, 0x52]
    } else if n == 4 {
        seq![ESC, 0x4f, 0x53]
    } else if n == 5 {
        seq![ESC, 0x5b, 0x31, 0x35, 0x7e]
    } else if n == 6 {
        seq![ESC, 0x5b, 0x31, 0x37, 0x7e]
    } else if n == 7 {
        seq![ESC, 0x5b, 0x31, 0x38, 0x7e]
    } else if n == 8 {
        seq![ESC, 0x5b, 0x31, 0x39, 0x7e]
    } else if n == 9 {
        seq![ESC, 0x5b, 0x32, 0x30, 0x7e]
    } else if n == 10 {
        seq![ESC, 0x5b, 0x32, 0x31, 0x7e]
    } else if n == 11 {
        seq![ESC, 0x5b, 0x32, 0x33, 0x7e]
    } else if n == 12 {
        seq![ESC, 0x5b, 0x32, 0x34, 0x7e]
    } else {
        seq![]
    }
}

/// The byte sequence a VT-style program reads for `k`.
pub open spec fn key_bytes(k: Key) -> Seq<u8> {
    match k {
        Key::Char(c) => encode_utf8(seq![c]),
        Key::Enter => seq![0x0du8],
        Key::Tab => seq![0x09u8],
        Key::Escape => seq![ESC],
        Key::Backspace => seq![0x7fu8],
        Key::Delete => seq![ESC, 0x5b, 0x33, 0x7e],
        Key::Up => seq![ESC, 0x5b, 0x41],
        Key::Down => seq![ESC, 0x5b, 0x42],
        Key::Right => seq![ESC, 0x5b, 0x43],
        Key::Left => seq![ESC, 0x5b, 0x44],
        Key::Home => seq![ESC, 0x5b, 0x48],
        Key::End => seq![ESC, 0x5b, 0x46],
        Key::PageUp => seq![ESC, 0x5b, 0x35, 0x7e],
        Key::PageDown => seq![ESC, 0x5b, 0x36, 0x7e],
        Key::F(n) => function_key_bytes(n),
        Key::Ctrl(c) => ctrl_bytes(c),
        Key::Alt(c) => seq![ESC] + encode_utf8(seq![c]),
    }
}

/// Whether `k` has an encoding: a function key in F1..F12, Ctrl with a letter,
/// or any other key.
pub open spec fn key_defined(k: Key) -> bool {
    match k {
        Key::F(n) => 1 <= n && n <= 12,
        Key::Ctrl(c) => {
            let l = ascii_lower_code(c);
            97 <= l && l <= 122
        },
        _ => true,
    }
}

/// The index `n` of a function key F1..F12 written as the digits of `n`.
pub open spec fn function_key_index(d: Seq<char>) -> Option<u8> {
    if d.len() == 1 && '1' <= d[0] && d[0] <= '9' {
        Some(((d[0] as u32) - 48) as u8)
    } else if d.len() == 2 && d[0] == '1' && '0' <= d[1] && d[1] <= '2' {
        Some(((d[1] as u32) - 38) as u8)
    } else {
        None
    }
}

/// The key that a key name stands for, given the name normalized (trimmed,
/// lower-cased) and as written: a named key, `f1`..`f12`, or any single
/// character.
pub open spec fn key_named(norm: Seq<char>, input: Seq<char>) -> Option<Key> {
    if norm == "enter"@ {
        Some(Key::Enter)
    } else if norm == "tab"@ {
        Some(Key::Tab)
    } else if norm == "escape"@ || norm == "esc"@ {
        Some(Key::Escape)
    } else if norm == "backspace"@ {
        Some(Key::Backspace)
    } else if norm == "delete"@ || norm == "del"@ {
        Some(Key::Delete)
    } else if norm == "up"@ {
        Some(Key::Up)
    } else if norm == "down"@ {
        Some(Key::Down)
    } else if norm == "left"@ {
        Some(Key::Left)
    } else if norm == "right"@ {
        Some(Key::Right)
    } else if norm == "home"@ {
        Some(Key::Home)
    } else if norm == "end"@ {
        Some(Key::End)
    } else if norm == "pageup"@ || norm == "page_up"@ {
        Some(Key::PageUp)
    } else if norm == "pagedown"@ || norm == "page_down"@ {
        Some(Key::PageDown)
    } else if norm.len() > 0 && norm[0] == 'f' && function_key_index(norm.drop_first()) is Some {
        Some(Key::F(function_key_index(norm.drop_first())->0))
    } else if input.len() == 1 {
        Some(Key::Char(input[0]))
    } else {
        None
    }
}

/// Relies on char::encode_utf8: the UTF-8 encoding of one character.
#[verifier::external_body]
fn char_utf8(c: char) -> (r: Vec<u8>)
    ensures
        r@ == encode_utf8(seq![c]),
{
    let mut buf = [0u8; 4];
    c.encode_utf8(&mut buf).as_bytes().to_vec()
}

proof fn lemma_char_encoding_nonempty(c: char)
    ensures
        encode_utf8(seq![c]).len() > 0,
{
    reveal_with_fuel(encode_utf8, 2);
}

impl Key {
    /// The bytes to write to the terminal for this key.  They are empty
    /// exactly when the key has no encoding.
    pub fn to_escape_sequence(&self) -> (r: Vec<u8>)
        ensures
            r@ == key_bytes(*self),
            r@.len() > 0 <==> key_defined(*self),
    {
        let r = match *self {
            Key::Char(c) => char_utf8(c),
            Key::Enter => vec![0x0du8],
            Key::Tab => vec![0x09u8],
            Key::Escape => vec![ESC],
            Key::Backspace => vec![0x7fu8],
            Key::Delete => vec![ESC, 0x5b, 0x33, 0x7e],
            Key::Up => vec![ESC, 0x5b, 0x41],
            Key::Down => vec![ESC, 0x5b, 0x42],
            Key::Right => vec![ESC, 0x5b, 0x43],
            Key::Left => vec![ESC, 0x5b, 0x44],
            Key::Home => vec![ESC, 0x5b, 0x48],
            Key::End => vec![ESC, 0x5b, 0x46],
            Key::PageUp => vec![ESC, 0x5b, 0x35, 0x7e],
            Key::PageDown => vec![ESC, 0x5b, 0x36, 0x7e],
            Key::F(n) => {
                if n == 1 {
                    vec![ESC, 0x4f, 0x50]
                } else if n == 2 {
                    vec![ESC, 0x4f, 0x51]
                } else if n == 3 {
                    vec![ESC, 0x4f, 0x52]
                } else if n == 4 {
                    vec![ESC, 0x4f, 0x53]
                } else if n == 5 {
                    vec![ESC, 0x5b, 0x31, 0x35, 0x7e]
                } else if n == 6 {
                    vec![ESC, 0x5b, 0x31, 0x37, 0x7e]
                } else if n == 7 {
                    vec![ESC, 0x5b, 0x31, 0x38, 0x7e]
                } else if n == 8 {
                    vec![ESC, 0x5b, 0x31, 0x39, 0x7e]
                } else if n == 9 {
                    vec![ESC, 0x5b, 0x32, 0x30, 0x7e]
                } else if n == 10 {
                    vec![ESC, 0x5b, 0x32, 0x31, 0x7e]
                } else if n == 11 {
                    vec![ESC, 0x5b, 0x32, 0x33, 0x7e]
                } else if n == 12 {
                    vec![ESC, 0x5b, 0x32, 0x34, 0x7e]
                } else {
                    Vec::new()
                }
            },
            Key::Ctrl(c) => {
                let u: u32 = c as u32;
                let l: u32 = if 65 <= u && u <= 90 {
                    u + 32
                } else {
                    u
                };
                if 97 <= l && l <= 122 {
                    let b: u8 = (l - 96) as u8;
                    vec![b]
                } else {
                    Vec::new()
                }
            },
            Key::Alt(c) => {
                let mut seq = vec![ESC];
                let mut tail = char_utf8(c);
                seq.append(&mut tail);
                seq
            },
        };
        proof {
            match *self {
                Key::Char(c) => lemma_char_encoding_nonempty(c),
                Key::Alt(c) => lemma_char_encoding_nonempty(c),
                _ => {},
            }
            assert(r@ =~= key_bytes(*self));
        }
        r
    }
}

/// The key named `input`, given also its normalized form `normalized_name`
/// (trimmed and lower-cased).  The error is a protocol error: `empty key` for
/// an empty input, `invalid key: <input>` otherwise.
pub fn key_from_normalized(normalized_name: &str, input: &str) -> (r: Result<Key, TermwrightError>)
    ensures
        r is Ok <==> key_named(normalized_name@, input@) is Some,
        r matches Ok(k) ==> key_named(normalized_name@, input@) == Some(k),
        r matches Err(e) ==> e matches TermwrightError::Protocol(m) && (if input@.len() == 0 {
            m@ == "empty key"@
        } else {
            m@ == "invalid key: "@ + input@
        }),
{
    let n = chars_of(normalized_name);
    if chars_are(&n, "enter") {
        return Ok(Key::Enter);
    }
    if chars_are(&n, "tab") {
        return Ok(Key::Tab);
    }
    if chars_are(&n, "escape") || chars_are(&n, "esc") {
        return Ok(Key::Escape);
    }
    if chars_are(&n, "backspace") {
        return Ok(Key::Backspace);
    }
    if chars_are(&n, "delete") || chars_are(&n, "del") {
        return Ok(Key::Delete);
    }
    if chars_are(&n, "up") {
        return Ok(Key::Up);
    }
    if chars_are(&n, "down") {
        return Ok(Key::Down);
    }
    if chars_are(&n, "left") {
        return Ok(Key::Left);
    }
    if chars_are(&n, "right") {
        return Ok(Key::Right);
    }
    if chars_are(&n, "home") {
        return Ok(Key::Home);
    }
    if chars_are(&n, "end") {
        return Ok(Key::End);
    }
    if chars_are(&n, "pageup") || chars_are(&n, "page_up") {
        return Ok(Key::PageUp);
    }
    if chars_are(&n, "pagedown") || chars_are(&n, "page_down") {
        return Ok(Key::PageDown);
    }
    if n.len() == 2 && n[0] == 'f' && '1' <= n[1] && n[1] <= '9' {
        assert(n@.drop_first() =~= seq![n@[1]]);
        return Ok(Key::F(((n[1] as u32) - 48) as u8));
    }
    if n.len() == 3 && n[0] == 'f' && n[1] == '1' && '0' <= n[2] && n[2] <= '2' {
        assert(n@.drop_first() =~= seq![n@[1], n@[2]]);
        return Ok(Key::F(((n[2] as u32) - 38) as u8));
    }
    assert(!(n@.len() > 0 && n@[0] == 'f' && function_key_index(n@.drop_first()) is Some));
    let v = chars_of(input);
    if v.len() == 1 {
        return Ok(Key::Char(v[0]));
    }
    if v.len() == 0 {
        return Err(TermwrightError::Protocol(string_of(&chars_of("empty key"))));
    }
    let mut msg: Vec<char> = Vec::new();
    push_str(&mut msg, "invalid key: ");
    push_str(&mut msg, input);
    Err(TermwrightError::Protocol(string_of(&msg)))
}

/// The key named `input` in the `press` vocabulary: Enter, Tab, Escape or
/// Esc, Backspace, Delete or Del, the arrows, Home, End, PageUp or Page_Up,
/// PageDown or Page_Down, F1..F12, compared after trimming and lower-casing,
/// or any single character.
pub fn parse_key(input: &str) -> (r: Result<Key, TermwrightError>)
    ensures
        r is Ok <==> key_named(normalized(input@), input@) is Some,
        r matches Ok(k) ==> key_named(normalized(input@), input@) == Some(k),
        r matches Err(e) ==> e is Protocol,
{
    let t = trim_chars(&chars_of(input));
    let ts = string_of(&t);
    let n = lowercase(ts.as_str());
    key_from_normalized(n.as_str(), input)
}

} // verus!

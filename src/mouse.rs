//! Mouse buttons and SGR 1006 mouse reports.

use vstd::prelude::*;
use crate::csi::{one_based, one_based_exec};
use crate::error::TermwrightError;
use crate::text::{
    chars_are, chars_of, decimal, lower_of, lowercase, push_decimal, push_str, string_of, trim,
    trim_chars,
};

verus! {

pub const ESC: u8 = 0x1b;

/// Mouse buttons understood by the daemon.
#[derive(Debug, Clone, Copy, PartialEq, Eq, Structural)]
pub enum MouseButton {
    Left,
    Middle,
    Right,
}

/// Scroll wheel direction.
#[derive(Debug, Clone, Copy, PartialEq, Eq, Structural)]
pub enum ScrollDirection {
    Up,
    Down,
}

/// The button a normalized name stands for.
pub open spec fn button_named(n: Seq<char>) -> Option<MouseButton> {
    if n == "left"@ {
        Some(MouseButton::Left)
    } else if n == "middle"@ {
        Some(MouseButton::Middle)
    } else if n == "right"@ {
        Some(MouseButton::Right)
    } else {
        None
    }
}

/// The direction a normalized name stands for.
pub open spec fn direction_named(n: Seq<char>) -> Option<ScrollDirection> {
    if n == "up"@ {
        Some(ScrollDirection::Up)
    } else if n == "down"@ {
        Some(ScrollDirection::Down)
    } else {
        None
    }
}

/// A name as the parsers compare it: trimmed, then lower-cased.
pub open spec fn normalized(s: Seq<char>) -> Seq<char> {
    lower_of(trim(s))
}

pub open spec fn press_code_of(b: MouseButton) -> u8 {
    match b {
        MouseButton::Left => 0,
        MouseButton::Middle => 1,
        MouseButton::Right => 2,
    }
}

pub open spec fn scroll_code_of(d: ScrollDirection) -> u8 {
    match d {
        ScrollDirection::Up => 64,
        ScrollDirection::Down => 65,
    }
}

/// `ESC [ < code ; col ; row M` for a press (`m` otherwise), 1-based.
pub open spec fn sgr_bytes(code: u8, row: u16, col: u16, pressed: bool) -> Seq<u8> {
    seq![ESC, 0x5b, 0x3c] + decimal(code as nat) + seq![0x3bu8] + decimal(one_based(col))
        + seq![0x3bu8] + decimal(one_based(row)) + seq![if pressed { 0x4du8 } else { 0x6du8 }]
}

/// `n` copies of `s`, one after another.
pub open spec fn repeated(s: Seq<u8>, n: nat) -> Seq<u8>
    decreases n,
{
    if n == 0 {
        seq![]
    } else {
        repeated(s, (n - 1) as nat) + s
    }
}

impl MouseButton {
    /// The button named `name`, already trimmed and lower-cased.
    pub fn from_normalized(name: &str) -> (r: Option<MouseButton>)
        ensures
            r == button_named(name@),
    {
        let v = chars_of(name);
        if chars_are(&v, "left") {
            Some(MouseButton::Left)
        } else if chars_are(&v, "middle") {
            Some(MouseButton::Middle)
        } else if chars_are(&v, "right") {
            Some(MouseButton::Right)
        } else {
            None
        }
    }

    /// The button named `s`, ignoring surrounding white space and case; the
    /// error names the normalized input.
    pub fn from_name(s: &str) -> (r: Result<MouseButton, String>)
        ensures
            r is Ok <==> button_named(normalized(s@)) is Some,
            r matches Ok(b) ==> button_named(normalized(s@)) == Some(b),
            r matches Err(m) ==> m@ == "unknown mouse button: "@ + normalized(s@),
    {
        let t = trim_chars(&chars_of(s));
        let ts = string_of(&t);
        let n = lowercase(ts.as_str());
        match MouseButton::from_normalized(n.as_str()) {
            Some(b) => Ok(b),
            None => {
                let mut msg: Vec<char> = Vec::new();
                push_str(&mut msg, "unknown mouse button: ");
                push_str(&mut msg, n.as_str());
                Err(string_of(&msg))
            },
        }
    }

    /// The SGR code of a press of this button.
    pub fn press_code(self) -> (r: u8)
        ensures
            r == press_code_of(self),
    {
        match self {
            MouseButton::Left => 0,
            MouseButton::Middle => 1,
            MouseButton::Right => 2,
        }
    }

    /// The button's name.
    pub fn name(self) -> (r: &'static str)
        ensures
            r@ == match self {
                MouseButton::Left => "left"@,
                MouseButton::Middle => "middle"@,
                MouseButton::Right => "right"@,
            },
    {
        match self {
            MouseButton::Left => "left",
            MouseButton::Middle => "middle",
            MouseButton::Right => "right",
        }
    }
}

impl std::str::FromStr for MouseButton {
    type Err = String;

    fn from_str(s: &str) -> Result<MouseButton, String> {
        MouseButton::from_name(s)
    }
}

impl std::str::FromStr for ScrollDirection {
    type Err = String;

    fn from_str(s: &str) -> Result<ScrollDirection, String> {
        ScrollDirection::from_name(s)
    }
}

impl ScrollDirection {
    /// The direction named `name`, already trimmed and lower-cased.
    pub fn from_normalized(name: &str) -> (r: Option<ScrollDirection>)
        ensures
            r == direction_named(name@),
    {
        let v = chars_of(name);
        if chars_are(&v, "up") {
            Some(ScrollDirection::Up)
        } else if chars_are(&v, "down") {
            Some(ScrollDirection::Down)
        } else {
            None
        }
    }

    /// The direction named `s`, ignoring surrounding white space and case;
    /// the error names the normalized input.
    pub fn from_name(s: &str) -> (r: Result<ScrollDirection, String>)
        ensures
            r is Ok <==> direction_named(normalized(s@)) is Some,
            r matches Ok(d) ==> direction_named(normalized(s@)) == Some(d),
            r matches Err(m) ==> m@ == "unknown scroll direction: "@ + normalized(s@),
    {
        let t = trim_chars(&chars_of(s));
        let ts = string_of(&t);
        let n = lowercase(ts.as_str());
        match ScrollDirection::from_normalized(n.as_str()) {
            Some(d) => Ok(d),
            None => {
                let mut msg: Vec<char> = Vec::new();
                push_str(&mut msg, "unknown scroll direction: ");
                push_str(&mut msg, n.as_str());
                Err(string_of(&msg))
            },
        }
    }

    /// The SGR code of a wheel event: 64 up, 65 down.
    pub fn sgr_code(self) -> (r: u8)
        ensures
            r == scroll_code_of(self),
    {
        match self {
            ScrollDirection::Up => 64,
            ScrollDirection::Down => 65,
        }
    }

    /// The direction's name.
    pub fn name(self) -> (r: &'static str)
        ensures
            r@ == match self {
                ScrollDirection::Up => "up"@,
                ScrollDirection::Down => "down"@,
            },
    {
        match self {
            ScrollDirection::Up => "up",
            ScrollDirection::Down => "down",
        }
    }
}

/// An SGR 1006 mouse report at the 0-based `(row, col)`: `ESC [ < code ; col+1 ; row+1`
/// and `M` for a press or `m` for a release.
pub fn encode_sgr_mouse(code: u8, row: u16, col: u16, pressed: bool) -> (r: Vec<u8>)
    ensures
        r@ == sgr_bytes(code, row, col, pressed),
{
    let mut out: Vec<u8> = vec![ESC, 0x5b, 0x3c];
    push_decimal(&mut out, code as u32);
    out.push(0x3b);
    push_decimal(&mut out, one_based_exec(col));
    out.push(0x3b);
    push_decimal(&mut out, one_based_exec(row));
    out.push(if pressed { 0x4d } else { 0x6d });
    assert(out@ =~= sgr_bytes(code, row, col, pressed));
    out
}

/// A press of `button` at `(row, col)`.
pub fn mouse_down_sequence(row: u16, col: u16, button: MouseButton) -> (r: Vec<u8>)
    ensures
        r@ == sgr_bytes(press_code_of(button), row, col, true),
{
    encode_sgr_mouse(button.press_code(), row, col, true)
}

/// A release at `(row, col)`.
pub fn mouse_up_sequence(row: u16, col: u16) -> (r: Vec<u8>)
    ensures
        r@ == sgr_bytes(3, row, col, false),
{
    encode_sgr_mouse(3, row, col, false)
}

/// A click: a press of `button` and then a release, at `(row, col)`.
pub fn mouse_click_sequence(row: u16, col: u16, button: MouseButton) -> (r: Vec<u8>)
    ensures
        r@ == sgr_bytes(press_code_of(button), row, col, true) + sgr_bytes(3, row, col, false),
{
    let mut out = mouse_down_sequence(row, col, button);
    let mut up = mouse_up_sequence(row, col);
    out.append(&mut up);
    out
}

/// The code of a move: 3 with no button held, else the first held button's
/// press code, plus 32.
pub open spec fn move_code(held: Seq<MouseButton>) -> u8 {
    let base: u8 = if held.len() > 0 {
        press_code_of(held[0])
    } else {
        3
    };
    (base + 32) as u8
}

/// A move to `(row, col)` with the buttons `held_buttons` down.
pub fn mouse_move_sequence(row: u16, col: u16, held_buttons: &Vec<MouseButton>) -> (r: Vec<u8>)
    ensures
        r@ == sgr_bytes(move_code(held_buttons@), row, col, true),
{
    let base: u8 = if held_buttons.len() > 0 {
        held_buttons[0].press_code()
    } else {
        3
    };
    encode_sgr_mouse(base + 32, row, col, true)
}

/// `count` wheel events in `direction` at `(row, col)`.
pub fn mouse_scroll_sequence(row: u16, col: u16, direction: ScrollDirection, count: u16) -> (r: Vec<u8>)
    ensures
        r@ == repeated(sgr_bytes(scroll_code_of(direction), row, col, true), count as nat),
{
    let one = encode_sgr_mouse(direction.sgr_code(), row, col, true);
    let mut out: Vec<u8> = Vec::new();
    let mut i: u16 = 0;
    while i < count
        invariant
            i <= count,
            one@ == sgr_bytes(scroll_code_of(direction), row, col, true),
            out@ == repeated(one@, i as nat),
        decreases count - i,
    {
        let mut k: usize = 0;
        let ghost before = out@;
        while k < one.len()
            invariant
                k <= one@.len(),
                out@ == before + one@.subrange(0, k as int),
            decreases one@.len() - k,
        {
            out.push(one[k]);
            k += 1;
            assert(out@ =~= before + one@.subrange(0, k as int));
        }
        assert(one@.subrange(0, k as int) =~= one@);
        i += 1;
    }
    out
}

/// A click with the left button emits exactly `ESC [ < 0 ; col+1 ; row+1 M`
/// followed by `ESC [ < 3 ; col+1 ; row+1 m`.
pub proof fn lemma_left_click(row: u16, col: u16)
    requires
        row < u16::MAX,
        col < u16::MAX,
    ensures
        sgr_bytes(press_code_of(MouseButton::Left), row, col, true) + sgr_bytes(3, row, col, false)
            == seq![ESC, 0x5b, 0x3c, 0x30, 0x3b] + decimal((col + 1) as nat) + seq![0x3bu8]
            + decimal((row + 1) as nat) + seq![0x4du8] + seq![ESC, 0x5b, 0x3c, 0x33, 0x3b]
            + decimal((col + 1) as nat) + seq![0x3bu8] + decimal((row + 1) as nat) + seq![0x6du8],
{
    assert(decimal(0) == seq![0x30u8]);
    assert(decimal(3) == seq![0x33u8]);
    assert(sgr_bytes(0, row, col, true) =~= seq![ESC, 0x5b, 0x3c, 0x30, 0x3b] + decimal(
        (col + 1) as nat,
    ) + seq![0x3bu8] + decimal((row + 1) as nat) + seq![0x4du8]);
    assert(sgr_bytes(3, row, col, false) =~= seq![ESC, 0x5b, 0x3c, 0x33, 0x3b] + decimal(
        (col + 1) as nat,
    ) + seq![0x3bu8] + decimal((row + 1) as nat) + seq![0x6du8]);
}

/// The buttons named in `buttons`, in order; none when absent.  The first name
/// that is not a button makes the whole call fail.
pub fn parse_mouse_buttons(buttons: Option<&Vec<String>>) -> (r: Result<Vec<MouseButton>, TermwrightError>)
    ensures
        buttons is None ==> (r matches Ok(v) && v@.len() == 0),
        buttons matches Some(names) ==> (r is Ok <==> forall|i: int|
            0 <= i < names@.len() ==> button_named(normalized(#[trigger] names@[i]@)) is Some),
        buttons matches Some(names) ==> (r matches Ok(v) ==> v@.len() == names@.len() && forall|i: int|
            0 <= i < v@.len() ==> button_named(normalized(names@[i]@)) == Some(#[trigger] v@[i])),
        r matches Err(e) ==> e is Protocol,
{
    let names = match buttons {
        None => return Ok(Vec::new()),
        Some(n) => n,
    };
    let mut out: Vec<MouseButton> = Vec::new();
    let mut i: usize = 0;
    while i < names.len()
        invariant
            buttons == Some(names),
            i <= names@.len(),
            out@.len() == i,
            forall|j: int| 0 <= j < i ==> button_named(normalized(names@[j]@)) == Some(#[trigger] out@[j]),
        decreases names@.len() - i,
    {
        match MouseButton::from_name(names[i].as_str()) {
            Ok(b) => out.push(b),
            Err(m) => {
                assert(button_named(normalized(names@[i as int]@)) is None);
                assert(!(forall|j: int|
                    0 <= j < names@.len() ==> button_named(normalized(#[trigger] names@[j]@)) is Some));
                return Err(TermwrightError::Protocol(m));
            },
        }
        i += 1;
    }
    assert forall|j: int| 0 <= j < names@.len() implies button_named(
        normalized(#[trigger] names@[j]@),
    ) is Some by {
        assert(button_named(normalized(names@[j]@)) == Some(out@[j]));
    }
    Ok(out)
}

} // verus!

//! Answers to the OSC 10/11/12 color queries that a child program may write to
//! its terminal, and tracking of the colors it sets.

use vstd::prelude::*;
use vstd::utf8::{decode_utf8, leading_bits_width_1, pop_first_scalar, valid_utf8};
use crate::text::{chars_of, decimal, push_decimal, trim, trim_chars, trim_end, trim_start};

verus! {

pub const ESC: u8 = 0x1b;

pub const BEL: u8 = 0x07;

/// The one-byte (C1) operating system command introducer.
pub const OSC_C1: u8 = 0x9d;

/// Most payload bytes kept for one command; a longer one is dropped.
pub const OSC_PAYLOAD_CAP: usize = 4096;

/// An 8-bit-per-channel color.
#[derive(Debug, Clone, Copy, PartialEq, Eq, Structural)]
pub struct Rgb8 {
    pub r: u8,
    pub g: u8,
    pub b: u8,
}

/// How a command was terminated: by `BEL` or by `ESC \`.
#[derive(Debug, Clone, Copy, PartialEq, Eq, Structural)]
pub enum OscTerminator {
    Bel,
    St,
}

/// The foreground, background and cursor colors a program sees.
#[derive(Debug, Clone, Copy, PartialEq, Eq, Structural)]
pub struct OscColorState {
    pub foreground: Rgb8,
    pub background: Rgb8,
    pub cursor: Rgb8,
}

pub open spec fn default_foreground() -> Rgb8 {
    Rgb8 { r: 0xf0, g: 0xf0, b: 0xf0 }
}

pub open spec fn default_background() -> Rgb8 {
    Rgb8 { r: 0, g: 0, b: 0 }
}

/// The color that command `code` reads.
pub open spec fn color_of(s: OscColorState, code: u8) -> Option<Rgb8> {
    if code == 10 {
        Some(s.foreground)
    } else if code == 11 {
        Some(s.background)
    } else if code == 12 {
        Some(s.cursor)
    } else {
        None
    }
}

/// The state after command `code` sets `v`.
pub open spec fn with_color(s: OscColorState, code: u8, v: Rgb8) -> OscColorState {
    if code == 10 {
        OscColorState { foreground: v, ..s }
    } else if code == 11 {
        OscColorState { background: v, ..s }
    } else if code == 12 {
        OscColorState { cursor: v, ..s }
    } else {
        s
    }
}

impl Default for OscColorState {
    fn default() -> (r: Self)
        ensures
            r.foreground == default_foreground(),
            r.background == default_background(),
            r.cursor == default_foreground(),
    {
        let fg = Rgb8 { r: 0xf0, g: 0xf0, b: 0xf0 };
        OscColorState { foreground: fg, background: Rgb8 { r: 0, g: 0, b: 0 }, cursor: fg }
    }
}

impl OscColorState {
    /// The color that command `code` (10, 11 or 12) reads.
    pub fn get(&self, code: u8) -> (r: Option<Rgb8>)
        ensures
            r == color_of(*self, code),
    {
        if code == 10 {
            Some(self.foreground)
        } else if code == 11 {
            Some(self.background)
        } else if code == 12 {
            Some(self.cursor)
        } else {
            None
        }
    }

    /// Sets the color of command `code`; false, and no change, for other codes.
    pub fn set(&mut self, code: u8, value: Rgb8) -> (r: bool)
        ensures
            r == (10 <= code && code <= 12),
            *final(self) == with_color(*old(self), code, value),
    {
        if code == 10 {
            self.foreground = value;
        } else if code == 11 {
            self.background = value;
        } else if code == 12 {
            self.cursor = value;
        } else {
            return false;
        }
        true
    }
}

/// The colors a new session starts with.
pub fn initial_color_state() -> (r: OscColorState)
    ensures
        r.foreground == default_foreground(),
        r.background == default_background(),
        r.cursor == default_foreground(),
{
    OscColorState::default()
}

// ---- the grammar of a command's payload ----

/// Value of a decimal digit string.
pub open spec fn digits_value(s: Seq<char>) -> nat
    decreases s.len(),
{
    if s.len() == 0 {
        0
    } else {
        digits_value(s.drop_last()) * 10 + ((s.last() as u32) - 48) as nat
    }
}

pub open spec fn is_digit(c: char) -> bool {
    '0' <= c && c <= '9'
}

/// `s` without one leading `+`.
pub open spec fn unsigned_part(s: Seq<char>) -> Seq<char> {
    if s.len() > 0 && s[0] == '+' {
        s.drop_first()
    } else {
        s
    }
}

/// A `u8` written in decimal, with an optional leading `+`.
pub open spec fn parse_u8(s: Seq<char>) -> Option<u8> {
    let d = unsigned_part(s);
    if d.len() > 0 && (forall|i: int| 0 <= i < d.len() ==> is_digit(#[trigger] d[i]))
        && digits_value(d) <= 255 {
        Some(digits_value(d) as u8)
    } else {
        None
    }
}

pub open spec fn is_hex_digit(c: char) -> bool {
    ('0' <= c && c <= '9') || ('a' <= c && c <= 'f') || ('A' <= c && c <= 'F')
}

pub open spec fn hex_value(c: char) -> nat {
    if '0' <= c && c <= '9' {
        ((c as u32) - 48) as nat
    } else if 'a' <= c && c <= 'f' {
        ((c as u32) - 87) as nat
    } else {
        ((c as u32) - 55) as nat
    }
}

/// Value of a hexadecimal digit string.
pub open spec fn hex_digits_value(s: Seq<char>) -> nat
    decreases s.len(),
{
    if s.len() == 0 {
        0
    } else {
        hex_digits_value(s.drop_last()) * 16 + hex_value(s.last())
    }
}

pub open spec fn all_hex(s: Seq<char>) -> bool {
    forall|i: int| 0 <= i < s.len() ==> is_hex_digit(#[trigger] s[i])
}

pub open spec fn pow16(n: nat) -> nat
    decreases n,
{
    if n == 0 {
        1
    } else {
        16 * pow16((n - 1) as nat)
    }
}

/// One `rgb:` component: 1 to 4 hex digits, scaled to 8 bits with rounding.
pub open spec fn rgb_component_value(s: Seq<char>) -> Option<u8> {
    if 1 <= s.len() <= 4 && all_hex(s) {
        let max = (pow16(s.len()) - 1) as nat;
        Some(((hex_digits_value(s) * 255 + max / 2) / max) as u8)
    } else {
        None
    }
}

/// `s` split at each `sep`.
pub open spec fn split_on(s: Seq<char>, sep: char) -> Seq<Seq<char>>
    decreases s.len(),
{
    if s.len() == 0 {
        seq![seq![]]
    } else {
        let rest = split_on(s.drop_last(), sep);
        if s.last() == sep {
            rest.push(seq![])
        } else {
            rest.update(rest.len() - 1, rest.last().push(s.last()))
        }
    }
}

/// `r/g/b`, each an `rgb:` component.
pub open spec fn rgb_spec_color(s: Seq<char>) -> Option<Rgb8> {
    let parts = split_on(s, '/');
    if parts.len() == 3 && rgb_component_value(parts[0]) is Some && rgb_component_value(parts[1]) is Some
        && rgb_component_value(parts[2]) is Some {
        Some(
            Rgb8 {
                r: rgb_component_value(parts[0])->0,
                g: rgb_component_value(parts[1])->0,
                b: rgb_component_value(parts[2])->0,
            },
        )
    } else {
        None
    }
}

/// `RRGGBB`: six hex digits.
pub open spec fn hex_hash_color(s: Seq<char>) -> Option<Rgb8> {
    if s.len() == 6 && all_hex(s) {
        Some(
            Rgb8 {
                r: hex_digits_value(s.subrange(0, 2)) as u8,
                g: hex_digits_value(s.subrange(2, 4)) as u8,
                b: hex_digits_value(s.subrange(4, 6)) as u8,
            },
        )
    } else {
        None
    }
}

/// A color: `rgb:<r>/<g>/<b>` or `#RRGGBB`.
pub open spec fn parse_color_spec(s: Seq<char>) -> Option<Rgb8> {
    if s.len() >= 4 && s.subrange(0, 4) == seq!['r', 'g', 'b', ':'] {
        rgb_spec_color(s.subrange(4, s.len() as int))
    } else if s.len() >= 1 && s[0] == '#' {
        hex_hash_color(s.subrange(1, s.len() as int))
    } else {
        None
    }
}

/// The lower-case hex digit of `d < 16`.
pub open spec fn hex_char(d: nat) -> u8 {
    if d < 10 {
        (48 + d) as u8
    } else {
        (87 + d) as u8
    }
}

/// Four lower-case hex digits of `x < 65536`.
pub open spec fn hex4(x: nat) -> Seq<u8> {
    seq![hex_char(x / 4096), hex_char((x / 256) % 16), hex_char((x / 16) % 16), hex_char(x % 16)]
}

pub open spec fn terminator_bytes(t: OscTerminator) -> Seq<u8> {
    match t {
        OscTerminator::Bel => seq![BEL],
        OscTerminator::St => seq![ESC, 0x5c],
    }
}

/// `ESC ] <code> ; rgb:RRRR/GGGG/BBBB <terminator>`, each component the 8-bit
/// value times 257.
pub open spec fn query_response(code: u8, c: Rgb8, t: OscTerminator) -> Seq<u8> {
    seq![ESC, 0x5d] + decimal(code as nat) + seq![0x3bu8, 0x72, 0x67, 0x62, 0x3a] + hex4(
        c.r as nat * 257,
    ) + seq![0x2fu8] + hex4(c.g as nat * 257) + seq![0x2fu8] + hex4(c.b as nat * 257)
        + terminator_bytes(t)
}

/// `i` is the first `;` of `s`.
pub open spec fn first_semicolon(s: Seq<char>, i: int) -> bool {
    0 <= i < s.len() && s[i] == ';' && forall|j: int| 0 <= j < i ==> s[j] != ';'
}

/// A finished command with payload `buf`: the new colors and the reply, if any.
#[verifier::opaque]
pub open spec fn osc_command(st: OscColorState, buf: Seq<u8>, t: OscTerminator) -> (
    OscColorState,
    Option<Seq<u8>>,
) {
    if !valid_utf8(buf) {
        (st, None)
    } else {
        let cmd = decode_utf8(buf);
        if !(exists|i: int| first_semicolon(cmd, i)) {
            (st, None)
        } else {
            let i = choose|i: int| first_semicolon(cmd, i);
            let code = parse_u8(cmd.subrange(0, i));
            let payload = trim(cmd.subrange(i + 1, cmd.len() as int));
            match code {
                Some(c) => if 10 <= c && c <= 12 {
                    if payload == seq!['?'] {
                        (st, Some(query_response(c, color_of(st, c)->0, t)))
                    } else {
                        match parse_color_spec(payload) {
                            Some(v) => (with_color(st, c, v), None),
                            None => (st, None),
                        }
                    }
                } else {
                    (st, None)
                },
                None => (st, None),
            }
        }
    }
}

/// Relies on std::str::from_utf8: it succeeds exactly on valid UTF-8, and
/// the string then holds the decoded characters.
#[verifier::external_body]
fn utf8_string(b: &Vec<u8>) -> (r: Option<String>)
    ensures
        r is Some <==> valid_utf8(b@),
        r matches Some(s) ==> s@ == decode_utf8(b@),
{
    std::str::from_utf8(b.as_slice()).ok().map(|s| s.to_string())
}

fn sub_chars(v: &Vec<char>, lo: usize, hi: usize) -> (r: Vec<char>)
    requires
        lo <= hi <= v@.len(),
    ensures
        r@ == v@.subrange(lo as int, hi as int),
{
    let mut r: Vec<char> = Vec::new();
    let mut i: usize = lo;
    while i < hi
        invariant
            lo <= i <= hi <= v@.len(),
            r@ == v@.subrange(lo as int, i as int),
        decreases hi - i,
    {
        r.push(v[i]);
        i += 1;
        assert(r@ =~= v@.subrange(lo as int, i as int));
    }
    r
}

proof fn lemma_digits_value_grows(s: Seq<char>, k: int)
    requires
        0 <= k <= s.len(),
        forall|i: int| 0 <= i < s.len() ==> is_digit(#[trigger] s[i]),
    ensures
        digits_value(s) >= digits_value(s.subrange(0, k)),
    decreases s.len() - k,
{
    if k < s.len() {
        lemma_digits_value_grows(s.drop_last(), k);
        assert(s.drop_last().subrange(0, k) =~= s.subrange(0, k));
        assert(is_digit(s.last()));
    } else {
        assert(s.subrange(0, k) =~= s);
    }
}

fn parse_u8_chars(s: &Vec<char>) -> (r: Option<u8>)
    ensures
        r == parse_u8(s@),
{
    let start: usize = if s.len() > 0 && s[0] == '+' {
        1
    } else {
        0
    };
    let ghost d = unsigned_part(s@);
    assert(d =~= s@.subrange(start as int, s@.len() as int));
    if start == s.len() {
        return None;
    }
    let mut acc: u32 = 0;
    let mut i: usize = start;
    while i < s.len()
        invariant
            start <= i <= s@.len(),
            d == unsigned_part(s@),
            d == s@.subrange(start as int, s@.len() as int),
            acc as nat == digits_value(d.subrange(0, i - start)),
            acc <= 255,
            forall|j: int| 0 <= j < i - start ==> is_digit(#[trigger] d[j]),
        decreases s@.len() - i,
    {
        let c = s[i];
        if !('0' <= c && c <= '9') {
            assert(!is_digit(d[i - start]));
            assert(!(forall|j: int| 0 <= j < d.len() ==> is_digit(#[trigger] d[j])));
            return None;
        }
        proof {
            let pre = d.subrange(0, i - start + 1);
            assert(pre.drop_last() =~= d.subrange(0, i - start));
            assert(pre.last() == c);
        }
        acc = acc * 10 + ((c as u32) - 48);
        i += 1;
        if acc > 255 {
            proof {
                assert(acc as nat == digits_value(d.subrange(0, i - start)));
                if forall|j: int| 0 <= j < d.len() ==> is_digit(#[trigger] d[j]) {
                    lemma_digits_value_grows(d, i - start);
                    assert(digits_value(d) > 255);
                }
            }
            return None;
        }
    }
    assert(d.subrange(0, d.len() as int) =~= d);
    Some(acc as u8)
}

fn hex_value_exec(c: char) -> (r: u32)
    requires
        is_hex_digit(c),
    ensures
        r == hex_value(c),
        r < 16,
{
    if '0' <= c && c <= '9' {
        (c as u32) - 48
    } else if 'a' <= c && c <= 'f' {
        (c as u32) - 87
    } else {
        (c as u32) - 55
    }
}

/// Value of `s[lo..hi]` as hex digits, or `None` if one is not a hex digit.
fn hex_value_of(s: &Vec<char>, lo: usize, hi: usize) -> (r: Option<u32>)
    requires
        lo <= hi <= s@.len(),
        hi - lo <= 4,
    ensures
        r is Some <==> all_hex(s@.subrange(lo as int, hi as int)),
        r matches Some(v) ==> v == hex_digits_value(s@.subrange(lo as int, hi as int)) && v < pow16(
            (hi - lo) as nat,
        ),
{
    let mut acc: u32 = 0;
    let mut i: usize = lo;
    while i < hi
        invariant
            lo <= i <= hi <= s@.len(),
            hi - lo <= 4,
            acc == hex_digits_value(s@.subrange(lo as int, i as int)),
            acc < pow16((i - lo) as nat),
            all_hex(s@.subrange(lo as int, i as int)),
        decreases hi - i,
    {
        let c = s[i];
        if !(('0' <= c && c <= '9') || ('a' <= c && c <= 'f') || ('A' <= c && c <= 'F')) {
            assert(!is_hex_digit(s@.subrange(lo as int, hi as int)[i - lo]));
            return None;
        }
        let h = hex_value_exec(c);
        proof {
            let pre = s@.subrange(lo as int, i + 1);
            assert(pre.drop_last() =~= s@.subrange(lo as int, i as int));
            assert(pre.last() == c);
            assert(pow16((i + 1 - lo) as nat) == 16 * pow16((i - lo) as nat));
            assert(pow16(0) == 1);
            assert(pow16(1) == 16) by {
                reveal_with_fuel(pow16, 2);
            }
            assert(pow16(4) == 65536) by {
                reveal_with_fuel(pow16, 5);
            }
            assert(pow16((i - lo) as nat) <= 4096) by {
                reveal_with_fuel(pow16, 5);
            }
            assert(acc * 16 + h < 16 * pow16((i - lo) as nat)) by (nonlinear_arith)
                requires
                    acc < pow16((i - lo) as nat),
                    h < 16,
            ;
            assert forall|j: int| 0 <= j < pre.len() implies is_hex_digit(#[trigger] pre[j]) by {
                if j < pre.len() - 1 {
                    assert(pre[j] == s@.subrange(lo as int, i as int)[j]);
                }
            }
        }
        acc = acc * 16 + h;
        i += 1;
    }
    Some(acc)
}

fn pow16_exec(n: usize) -> (r: u32)
    requires
        n <= 4,
    ensures
        r == pow16(n as nat),
{
    reveal_with_fuel(pow16, 5);
    if n == 0 {
        1
    } else if n == 1 {
        16
    } else if n == 2 {
        256
    } else if n == 3 {
        4096
    } else {
        65536
    }
}

fn parse_rgb_component(s: &Vec<char>, lo: usize, hi: usize) -> (r: Option<u8>)
    requires
        lo <= hi <= s@.len(),
    ensures
        r == rgb_component_value(s@.subrange(lo as int, hi as int)),
{
    let n = hi - lo;
    if n < 1 || n > 4 {
        return None;
    }
    match hex_value_of(s, lo, hi) {
        None => None,
        Some(v) => {
            let p = pow16_exec(n);
            assert(16 <= p <= 65536) by {
                reveal_with_fuel(pow16, 5);
            }
            let max: u32 = p - 1;
            assert(v * 255 <= 65535 * 255) by (nonlinear_arith)
                requires
                    v < p,
                    p <= 65536,
            ;
            let scaled: u32 = (v * 255 + max / 2) / max;
            proof {
                let vi = v as int;
                let mi = max as int;
                let num = vi * 255 + mi / 2;
                assert(num < 256 * mi) by (nonlinear_arith)
                    requires
                        vi <= mi,
                        mi >= 15,
                        num == vi * 255 + mi / 2,
                ;
                assert(num / mi < 256) by (nonlinear_arith)
                    requires
                        num < 256 * mi,
                        mi > 0,
                        num >= 0,
                ;
            }
            Some(scaled as u8)
        },
    }
}

/// The parts of `s` between `sep`s.
fn split_chars(s: &Vec<char>, sep: char) -> (r: Vec<Vec<char>>)
    ensures
        r@.map_values(|p: Vec<char>| p@) == split_on(s@, sep),
{
    let mut parts: Vec<Vec<char>> = Vec::new();
    let mut cur: Vec<char> = Vec::new();
    let mut i: usize = 0;
    while i < s.len()
        invariant
            i <= s@.len(),
            parts@.map_values(|p: Vec<char>| p@).push(cur@) == split_on(
                s@.subrange(0, i as int),
                sep,
            ),
        decreases s@.len() - i,
    {
        let c = s[i];
        let ghost prev = parts@.map_values(|p: Vec<char>| p@).push(cur@);
        proof {
            let pre = s@.subrange(0, i + 1);
            assert(pre.drop_last() =~= s@.subrange(0, i as int));
            assert(pre.last() == c);
        }
        if c == sep {
            let mut done: Vec<char> = Vec::new();
            std::mem::swap(&mut done, &mut cur);
            parts.push(done);
            assert(parts@.map_values(|p: Vec<char>| p@).push(cur@) =~= prev.push(seq![]));
        } else {
            cur.push(c);
            assert(parts@.map_values(|p: Vec<char>| p@).push(cur@) =~= prev.update(
                prev.len() - 1,
                prev.last().push(c),
            ));
        }
        i += 1;
    }
    assert(s@.subrange(0, s@.len() as int) =~= s@);
    parts.push(cur);
    parts
}

fn parse_rgb_spec(s: &Vec<char>) -> (r: Option<Rgb8>)
    ensures
        r == rgb_spec_color(s@),
{
    let parts = split_chars(s, '/');
    proof {
        assert(parts@.len() == split_on(s@, '/').len());
    }
    if parts.len() != 3 {
        return None;
    }
    proof {
        assert(parts@[0]@ == split_on(s@, '/')[0]);
        assert(parts@[1]@ == split_on(s@, '/')[1]);
        assert(parts@[2]@ == split_on(s@, '/')[2]);
        assert(parts@[0]@.subrange(0, parts@[0]@.len() as int) =~= parts@[0]@);
        assert(parts@[1]@.subrange(0, parts@[1]@.len() as int) =~= parts@[1]@);
        assert(parts@[2]@.subrange(0, parts@[2]@.len() as int) =~= parts@[2]@);
    }
    let r = parse_rgb_component(&parts[0], 0, parts[0].len());
    let g = parse_rgb_component(&parts[1], 0, parts[1].len());
    let b = parse_rgb_component(&parts[2], 0, parts[2].len());
    match (r, g, b) {
        (Some(r), Some(g), Some(b)) => Some(Rgb8 { r, g, b }),
        _ => None,
    }
}

fn parse_hex_hash(s: &Vec<char>, lo: usize) -> (r: Option<Rgb8>)
    requires
        lo <= s@.len(),
    ensures
        r == hex_hash_color(s@.subrange(lo as int, s@.len() as int)),
{
    let ghost t = s@.subrange(lo as int, s@.len() as int);
    if s.len() - lo != 6 {
        return None;
    }
    let r = hex_value_of(s, lo, lo + 2);
    let g = hex_value_of(s, lo + 2, lo + 4);
    let b = hex_value_of(s, lo + 4, lo + 6);
    proof {
        assert(t.subrange(0, 2) =~= s@.subrange(lo as int, lo + 2));
        assert(t.subrange(2, 4) =~= s@.subrange(lo + 2, lo + 4));
        assert(t.subrange(4, 6) =~= s@.subrange(lo + 4, lo + 6));
        assert(all_hex(t) <==> (all_hex(t.subrange(0, 2)) && all_hex(t.subrange(2, 4)) && all_hex(
            t.subrange(4, 6),
        ))) by {
            if all_hex(t.subrange(0, 2)) && all_hex(t.subrange(2, 4)) && all_hex(t.subrange(4, 6)) {
                assert forall|i: int| 0 <= i < t.len() implies is_hex_digit(#[trigger] t[i]) by {
                    if i < 2 {
                        assert(t[i] == t.subrange(0, 2)[i]);
                    } else if i < 4 {
                        assert(t[i] == t.subrange(2, 4)[i - 2]);
                    } else {
                        assert(t[i] == t.subrange(4, 6)[i - 4]);
                    }
                }
            }
            if all_hex(t) {
                assert forall|i: int| 0 <= i < 2 implies is_hex_digit(
                    #[trigger] t.subrange(0, 2)[i],
                ) by {
                    assert(t.subrange(0, 2)[i] == t[i]);
                }
                assert forall|i: int| 0 <= i < 2 implies is_hex_digit(
                    #[trigger] t.subrange(2, 4)[i],
                ) by {
                    assert(t.subrange(2, 4)[i] == t[i + 2]);
                }
                assert forall|i: int| 0 <= i < 2 implies is_hex_digit(
                    #[trigger] t.subrange(4, 6)[i],
                ) by {
                    assert(t.subrange(4, 6)[i] == t[i + 4]);
                }
            }
        }
    }
    match (r, g, b) {
        (Some(r), Some(g), Some(b)) => {
            proof {
                reveal_with_fuel(pow16, 3);
            }
            Some(Rgb8 { r: r as u8, g: g as u8, b: b as u8 })
        },
        _ => None,
    }
}

fn parse_color_chars(v: &Vec<char>) -> (r: Option<Rgb8>)
    ensures
        r == parse_color_spec(v@),
{
    if v.len() >= 4 && v[0] == 'r' && v[1] == 'g' && v[2] == 'b' && v[3] == ':' {
        assert(v@.subrange(0, 4) =~= seq!['r', 'g', 'b', ':']);
        let rest = sub_chars(v, 4, v.len());
        parse_rgb_spec(&rest)
    } else {
        proof {
            if v@.len() >= 4 && v@.subrange(0, 4) == seq!['r', 'g', 'b', ':'] {
                assert(v@.subrange(0, 4)[0] == v@[0]);
                assert(v@.subrange(0, 4)[1] == v@[1]);
                assert(v@.subrange(0, 4)[2] == v@[2]);
                assert(v@.subrange(0, 4)[3] == v@[3]);
            }
        }
        if v.len() >= 1 && v[0] == '#' {
            parse_hex_hash(v, 1)
        } else {
            None
        }
    }
}

/// Parses a color: `rgb:<r>/<g>/<b>` with 1 to 4 hex digits per component,
/// scaled to 8 bits with rounding, or `#RRGGBB`.
pub fn parse_color(value: &str) -> (r: Option<Rgb8>)
    ensures
        r == parse_color_spec(value@),
{
    let v = chars_of(value);
    parse_color_chars(&v)
}

fn hex_char_exec(d: u32) -> (r: u8)
    requires
        d < 16,
    ensures
        r == hex_char(d as nat),
{
    if d < 10 {
        (48 + d) as u8
    } else {
        (87 + d) as u8
    }
}

fn push_hex4(out: &mut Vec<u8>, x: u32)
    requires
        x < 65536,
    ensures
        final(out)@ == old(out)@ + hex4(x as nat),
{
    out.push(hex_char_exec(x / 4096));
    out.push(hex_char_exec((x / 256) % 16));
    out.push(hex_char_exec((x / 16) % 16));
    out.push(hex_char_exec(x % 16));
    assert(final(out)@ =~= old(out)@ + hex4(x as nat));
}

fn encode_query_response(code: u8, color: Rgb8, terminator: OscTerminator) -> (r: Vec<u8>)
    ensures
        r@ == query_response(code, color, terminator),
{
    let mut out: Vec<u8> = vec![ESC, 0x5d];
    push_decimal(&mut out, code as u32);
    out.push(0x3b);
    out.push(0x72);
    out.push(0x67);
    out.push(0x62);
    out.push(0x3a);
    push_hex4(&mut out, (color.r as u32) * 257);
    out.push(0x2f);
    push_hex4(&mut out, (color.g as u32) * 257);
    out.push(0x2f);
    push_hex4(&mut out, (color.b as u32) * 257);
    match terminator {
        OscTerminator::Bel => out.push(BEL),
        OscTerminator::St => {
            out.push(ESC);
            out.push(0x5c);
        },
    }
    assert(out@ =~= query_response(code, color, terminator));
    out
}

fn handle_command(state: &mut OscColorState, buf: &Vec<u8>, terminator: OscTerminator) -> (r:
    Option<Vec<u8>>)
    ensures
        (*final(state), match r {
            Some(v) => Some(v@),
            None => None,
        }) == osc_command(*old(state), buf@, terminator),
{
    reveal(osc_command);
    let text = match utf8_string(buf) {
        Some(t) => t,
        None => return None,
    };
    let cmd = chars_of(text.as_str());
    let mut i: usize = 0;
    while i < cmd.len() && cmd[i] != ';'
        invariant
            i <= cmd@.len(),
            forall|j: int| 0 <= j < i ==> cmd@[j] != ';',
        decreases cmd@.len() - i,
    {
        i += 1;
    }
    if i == cmd.len() {
        return None;
    }
    proof {
        assert(first_semicolon(cmd@, i as int));
        let k = choose|k: int| first_semicolon(cmd@, k);
        assert(k == i) by {
            if k < i {
                assert(cmd@[k] != ';');
            } else if k > i {
                assert(cmd@[i as int] != ';');
            }
        }
    }
    let code_part = sub_chars(&cmd, 0, i);
    let rest = sub_chars(&cmd, i + 1, cmd.len());
    let payload = trim_chars(&rest);
    let code = match parse_u8_chars(&code_part) {
        Some(c) => c,
        None => return None,
    };
    if !(10 <= code && code <= 12) {
        return None;
    }
    if payload.len() == 1 && payload[0] == '?' {
        assert(payload@ =~= seq!['?']);
        let color = match state.get(code) {
            Some(c) => c,
            None => return None,
        };
        return Some(encode_query_response(code, color, terminator));
    }
    assert(payload@ != seq!['?']) by {
        if payload@ == seq!['?'] {
            assert(payload@[0] == '?');
        }
    }
    match parse_color_chars(&payload) {
        Some(v) => {
            state.set(code, v);
            None
        },
        None => None,
    }
}

// ---- the parser ----

/// Where the parser stands in the byte stream.
#[derive(Debug)]
pub enum OscParserState {
    Ground,
    /// Saw `ESC`.
    Esc,
    /// Inside a command: the payload so far, and whether an `ESC` is pending.
    Osc { buf: Vec<u8>, pending_esc: bool },
}

/// The parser state as a value.
pub enum OscPhase {
    Ground,
    Esc,
    Osc(Seq<u8>, bool),
}

impl View for OscParserState {
    type V = OscPhase;

    open spec fn view(&self) -> OscPhase {
        match self {
            OscParserState::Ground => OscPhase::Ground,
            OscParserState::Esc => OscPhase::Esc,
            OscParserState::Osc { buf, pending_esc } => OscPhase::Osc(buf@, *pending_esc),
        }
    }
}

/// Stateful recogniser of OSC 10/11/12 commands, with the colors they set.
#[derive(Debug)]
pub struct OscEmulator {
    state: OscColorState,
    parser_state: OscParserState,
}

impl View for OscEmulator {
    type V = (OscColorState, OscPhase);

    closed spec fn view(&self) -> (OscColorState, OscPhase) {
        (self.state, self.parser_state@)
    }
}

pub open spec fn reply_seq(r: Option<Seq<u8>>) -> Seq<Seq<u8>> {
    match r {
        Some(v) => seq![v],
        None => seq![],
    }
}

/// One byte: the new colors, the next parser state and the replies it produces.
pub open spec fn osc_step(st: OscColorState, p: OscPhase, b: u8) -> (
    OscColorState,
    OscPhase,
    Seq<Seq<u8>>,
) {
    match p {
        OscPhase::Ground => if b == ESC {
            (st, OscPhase::Esc, seq![])
        } else if b == OSC_C1 {
            (st, OscPhase::Osc(seq![], false), seq![])
        } else {
            (st, OscPhase::Ground, seq![])
        },
        OscPhase::Esc => if b == 0x5d {
            (st, OscPhase::Osc(seq![], false), seq![])
        } else {
            (st, OscPhase::Ground, seq![])
        },
        OscPhase::Osc(buf, pending) => if pending {
            if b == 0x5c {
                let (st2, r) = osc_command(st, buf, OscTerminator::St);
                (st2, OscPhase::Ground, reply_seq(r))
            } else if buf.len() >= OSC_PAYLOAD_CAP {
                (st, OscPhase::Ground, seq![])
            } else if b == BEL {
                let (st2, r) = osc_command(st, buf.push(ESC), OscTerminator::Bel);
                (st2, OscPhase::Ground, reply_seq(r))
            } else if b == ESC {
                (st, OscPhase::Osc(buf.push(ESC), true), seq![])
            } else if buf.len() + 1 >= OSC_PAYLOAD_CAP {
                (st, OscPhase::Ground, seq![])
            } else {
                (st, OscPhase::Osc(buf.push(ESC).push(b), false), seq![])
            }
        } else if b == BEL {
            let (st2, r) = osc_command(st, buf, OscTerminator::Bel);
            (st2, OscPhase::Ground, reply_seq(r))
        } else if b == ESC {
            (st, OscPhase::Osc(buf, true), seq![])
        } else if buf.len() >= OSC_PAYLOAD_CAP {
            (st, OscPhase::Ground, seq![])
        } else {
            (st, OscPhase::Osc(buf.push(b), false), seq![])
        },
    }
}

/// A whole byte stream: the final colors and parser state, and all replies in order.
pub open spec fn osc_run(st: OscColorState, p: OscPhase, bytes: Seq<u8>) -> (
    OscColorState,
    OscPhase,
    Seq<Seq<u8>>,
)
    decreases bytes.len(),
{
    if bytes.len() == 0 {
        (st, p, seq![])
    } else {
        let (st1, ph1, out1) = osc_run(st, p, bytes.drop_last());
        let (st2, ph2, out2) = osc_step(st1, ph1, bytes.last());
        (st2, ph2, out1 + out2)
    }
}

/// Feeding `a` and then `b` gives the colors, state and replies of feeding `a + b`.
pub proof fn lemma_osc_chunks(st: OscColorState, p: OscPhase, a: Seq<u8>, b: Seq<u8>)
    ensures
        ({
            let (st1, ph1, r1) = osc_run(st, p, a);
            let (st2, ph2, r2) = osc_run(st1, ph1, b);
            osc_run(st, p, a + b) == (st2, ph2, r1 + r2)
        }),
    decreases b.len(),
{
    if b.len() == 0 {
        assert(a + b =~= a);
        let (st1, ph1, r1) = osc_run(st, p, a);
        assert(r1 + seq![] =~= r1);
    } else {
        lemma_osc_chunks(st, p, a, b.drop_last());
        assert((a + b).drop_last() =~= a + b.drop_last());
        assert((a + b).last() == b.last());
        let (st1, ph1, r1) = osc_run(st, p, a);
        let (st2, ph2, r2) = osc_run(st1, ph1, b.drop_last());
        let (st3, ph3, r3) = osc_step(st2, ph2, b.last());
        assert(r1 + r2 + r3 =~= r1 + (r2 + r3));
    }
}

/// `r` ends with `suffix`.
pub open spec fn ends_with(r: Seq<u8>, suffix: Seq<u8>) -> bool {
    r.len() >= suffix.len() && r.subrange(r.len() - suffix.len(), r.len() as int) == suffix
}

proof fn lemma_command_reply_terminator(st: OscColorState, buf: Seq<u8>, t: OscTerminator)
    ensures
        osc_command(st, buf, t).1 matches Some(r) ==> ends_with(r, terminator_bytes(t)),
{
    reveal(osc_command);
    if osc_command(st, buf, t).1 is Some {
        let r = osc_command(st, buf, t).1->0;
        let tb = terminator_bytes(t);
        let c = choose|i: int| first_semicolon(decode_utf8(buf), i);
        let code = parse_u8(decode_utf8(buf).subrange(0, c))->0;
        let col = color_of(st, code)->0;
        let head = seq![ESC, 0x5d] + decimal(code as nat) + seq![0x3bu8, 0x72, 0x67, 0x62, 0x3a]
            + hex4(col.r as nat * 257) + seq![0x2fu8] + hex4(col.g as nat * 257) + seq![0x2fu8]
            + hex4(col.b as nat * 257);
        assert(r == head + tb);
        assert((head + tb).subrange(head.len() as int, (head + tb).len() as int) =~= tb);
    }
}

/// A query answered when its terminator arrives is answered with the same
/// terminator: `BEL` after `BEL`, `ESC \` after `ESC \`.
pub proof fn lemma_reply_keeps_terminator(st: OscColorState, buf: Seq<u8>, pending: bool)
    ensures
        forall|i: int|
            0 <= i < osc_step(st, OscPhase::Osc(buf, pending), BEL).2.len() ==> ends_with(
                #[trigger] osc_step(st, OscPhase::Osc(buf, pending), BEL).2[i],
                seq![BEL],
            ),
        forall|i: int|
            0 <= i < osc_step(st, OscPhase::Osc(buf, true), 0x5c).2.len() ==> ends_with(
                #[trigger] osc_step(st, OscPhase::Osc(buf, true), 0x5c).2[i],
                seq![ESC, 0x5c],
            ),
{
    lemma_command_reply_terminator(st, buf, OscTerminator::Bel);
    lemma_command_reply_terminator(st, buf.push(ESC), OscTerminator::Bel);
    lemma_command_reply_terminator(st, buf, OscTerminator::St);
}

proof fn lemma_ascii_utf8(b: Seq<u8>)
    requires
        forall|i: int| 0 <= i < b.len() ==> b[i] <= 0x7f,
    ensures
        valid_utf8(b),
        decode_utf8(b) == b.map_values(|x: u8| x as u32 as char),
    decreases b.len(),
{
    if b.len() > 0 {
        let x = b[0];
        assert(x & 0x7f == x) by (bit_vector)
            requires
                x <= 0x7f,
        ;
        assert(leading_bits_width_1(x) == x as u32);
        assert(pop_first_scalar(b) =~= b.drop_first());
        lemma_ascii_utf8(b.drop_first());
        assert(decode_utf8(b) =~= b.map_values(|x: u8| x as u32 as char));
    }
}

proof fn lemma_query_command(st: OscColorState, code: u8, t: OscTerminator)
    requires
        10 <= code <= 12,
    ensures
        osc_command(st, seq![0x31, (code + 38) as u8, 0x3b, 0x3f], t) == (
            st,
            Some(query_response(code, color_of(st, code)->0, t)),
        ),
{
    let d: u8 = (code + 38) as u8;
    let buf: Seq<u8> = seq![0x31, d, 0x3b, 0x3f];
    lemma_ascii_utf8(buf);
    let cmd = decode_utf8(buf);
    assert(cmd =~= seq!['1', d as u32 as char, ';', '?']);
    assert(first_semicolon(cmd, 2));
    let k = choose|k: int| first_semicolon(cmd, k);
    assert(k == 2) by {
        if k < 2 {
            assert(cmd[k] != ';');
        } else if k > 2 {
            assert(cmd[2] == ';');
        }
    }
    let digits = cmd.subrange(0, 2);
    assert(unsigned_part(digits) == digits);
    assert(digits.drop_last() =~= seq!['1']);
    assert(seq!['1'].drop_last() =~= seq![]);
    reveal_with_fuel(digits_value, 3);
    assert(digits_value(digits) == code);
    assert(parse_u8(digits) == Some(code));
    let rest = cmd.subrange(3, 4);
    assert(rest =~= seq!['?']);
    reveal_with_fuel(trim_end, 2);
    reveal_with_fuel(trim_start, 2);
    assert(trim(rest) == seq!['?']);
    reveal(osc_command);
}

/// From the ground state, a query `ESC ] <code> ; ? <terminator>` for code
/// 10, 11 or 12 is answered with exactly one reply,
/// `ESC ] <code> ; rgb:RRRR/GGGG/BBBB <terminator>`, each component the stored
/// 8-bit value times 257, and leaves the colors unchanged.
pub proof fn lemma_query_reply(st: OscColorState, code: u8, t: OscTerminator)
    requires
        10 <= code <= 12,
    ensures
        ({
            let q = seq![ESC, 0x5d, 0x31, (code + 38) as u8, 0x3b, 0x3f] + terminator_bytes(t);
            let (st2, ph2, out) = osc_run(st, OscPhase::Ground, q);
            &&& st2 == st
            &&& ph2 == OscPhase::Ground
            &&& out == seq![query_response(code, color_of(st, code)->0, t)]
        }),
{
    let d: u8 = (code + 38) as u8;
    lemma_query_command(st, code, t);
    let r = query_response(code, color_of(st, code)->0, t);
    let e: Seq<Seq<u8>> = seq![];
    let q = seq![ESC, 0x5d, 0x31, d, 0x3b, 0x3f] + terminator_bytes(t);
    let g = OscPhase::Ground;
    assert(q.subrange(0, 0) =~= seq![]);
    assert(e + e =~= e);
    reveal_with_fuel(osc_run, 2);
    assert(q[0] == ESC && q[1] == 0x5d && q[2] == 0x31 && q[3] == d && q[4] == 0x3b && q[5] == 0x3f);
    assert(t is Bel ==> q[6] == BEL);
    assert(t is St ==> q[6] == ESC && q[7] == 0x5c);
    assert(q.subrange(0, 1).drop_last() =~= q.subrange(0, 0));
    assert(q.subrange(0, 1).last() == q[0]);
    assert(osc_run(st, g, q.subrange(0, 1)) == (st, OscPhase::Esc, e));
    assert(q.subrange(0, 2).drop_last() =~= q.subrange(0, 1));
    assert(q.subrange(0, 2).last() == q[1]);
    assert(osc_run(st, g, q.subrange(0, 2)) == (st, OscPhase::Osc(seq![], false), e));
    assert(q.subrange(0, 3).drop_last() =~= q.subrange(0, 2));
    assert(q.subrange(0, 3).last() == q[2]);
    assert(osc_run(st, g, q.subrange(0, 3)) == (st, OscPhase::Osc(seq![0x31u8], false), e));
    assert(q.subrange(0, 4).drop_last() =~= q.subrange(0, 3));
    assert(q.subrange(0, 4).last() == q[3]);
    assert(seq![0x31u8].push(d) =~= seq![0x31u8, d]);
    assert(osc_run(st, g, q.subrange(0, 4)) == (st, OscPhase::Osc(seq![0x31u8, d], false), e));
    assert(q.subrange(0, 5).drop_last() =~= q.subrange(0, 4));
    assert(q.subrange(0, 5).last() == q[4]);
    assert(seq![0x31u8, d].push(0x3bu8) =~= seq![0x31u8, d, 0x3b]);
    assert(osc_run(st, g, q.subrange(0, 5)) == (st, OscPhase::Osc(seq![0x31u8, d, 0x3b], false), e));
    assert(q.subrange(0, 6).drop_last() =~= q.subrange(0, 5));
    assert(q.subrange(0, 6).last() == q[5]);
    let buf: Seq<u8> = seq![0x31, d, 0x3b, 0x3f];
    assert(seq![0x31u8, d, 0x3b].push(0x3fu8) =~= buf);
    assert(osc_run(st, g, q.subrange(0, 6)) == (st, OscPhase::Osc(buf, false), e));
    match t {
        OscTerminator::Bel => {
            assert(q.subrange(0, 7).drop_last() =~= q.subrange(0, 6));
    assert(q.subrange(0, 7).last() == q[6]);
            assert(q.subrange(0, 7) =~= q);
            assert(e + seq![r] =~= seq![r]);
        },
        OscTerminator::St => {
            assert(q.subrange(0, 7).drop_last() =~= q.subrange(0, 6));
    assert(q.subrange(0, 7).last() == q[6]);
            assert(osc_run(st, g, q.subrange(0, 7)) == (st, OscPhase::Osc(buf, true), e));
            assert(q.subrange(0, 8).drop_last() =~= q.subrange(0, 7));
    assert(q.subrange(0, 8).last() == q[7]);
            assert(q.subrange(0, 8) =~= q);
            assert(e + seq![r] =~= seq![r]);
        },
    }
}

impl OscEmulator {
    pub fn new(state: OscColorState) -> (r: Self)
        ensures
            r@ == (state, OscPhase::Ground),
    {
        OscEmulator { state, parser_state: OscParserState::Ground }
    }

    /// Feeds output bytes of the child; returns the replies to write back, in order.
    pub fn process_output(&mut self, bytes: &[u8]) -> (r: Vec<Vec<u8>>)
        ensures
            ({
                let (st, p, out) = osc_run(old(self)@.0, old(self)@.1, bytes@);
                final(self)@ == (st, p) && r@.map_values(|v: Vec<u8>| v@) == out
            }),
    {
        let mut ps = OscParserState::Ground;
        std::mem::swap(&mut ps, &mut self.parser_state);
        let ghost start = (self.state, ps@);
        let mut responses: Vec<Vec<u8>> = Vec::new();
        let mut i: usize = 0;
        while i < bytes.len()
            invariant
                i <= bytes@.len(),
                ({
                    let (st, p, out) = osc_run(start.0, start.1, bytes@.subrange(0, i as int));
                    self.state == st && ps@ == p && responses@.map_values(|v: Vec<u8>| v@) == out
                }),
            decreases bytes@.len() - i,
        {
            let b = bytes[i];
            let ghost before = responses@.map_values(|v: Vec<u8>| v@);
            let ghost ph0 = ps@;
            let ghost s0 = self.state;
            ps = match ps {
                OscParserState::Ground => {
                    if b == ESC {
                        OscParserState::Esc
                    } else if b == OSC_C1 {
                        OscParserState::Osc { buf: Vec::new(), pending_esc: false }
                    } else {
                        OscParserState::Ground
                    }
                },
                OscParserState::Esc => {
                    if b == 0x5d {
                        OscParserState::Osc { buf: Vec::new(), pending_esc: false }
                    } else {
                        OscParserState::Ground
                    }
                },
                OscParserState::Osc { mut buf, pending_esc } => {
                    if pending_esc {
                        if b == 0x5c {
                            if let Some(reply) = handle_command(
                                &mut self.state,
                                &buf,
                                OscTerminator::St,
                            ) {
                                responses.push(reply);
                            }
                            OscParserState::Ground
                        } else if buf.len() >= OSC_PAYLOAD_CAP {
                            OscParserState::Ground
                        } else {
                            buf.push(ESC);
                            if b == BEL {
                                if let Some(reply) = handle_command(
                                    &mut self.state,
                                    &buf,
                                    OscTerminator::Bel,
                                ) {
                                    responses.push(reply);
                                }
                                OscParserState::Ground
                            } else if b == ESC {
                                OscParserState::Osc { buf, pending_esc: true }
                            } else if buf.len() >= OSC_PAYLOAD_CAP {
                                OscParserState::Ground
                            } else {
                                buf.push(b);
                                OscParserState::Osc { buf, pending_esc: false }
                            }
                        }
                    } else if b == BEL {
                        if let Some(reply) = handle_command(
                            &mut self.state,
                            &buf,
                            OscTerminator::Bel,
                        ) {
                            responses.push(reply);
                        }
                        OscParserState::Ground
                    } else if b == ESC {
                        OscParserState::Osc { buf, pending_esc: true }
                    } else if buf.len() >= OSC_PAYLOAD_CAP {
                        OscParserState::Ground
                    } else {
                        buf.push(b);
                        OscParserState::Osc { buf, pending_esc: false }
                    }
                },
            };
            proof {
                let pre = bytes@.subrange(0, i as int);
                let post = bytes@.subrange(0, i + 1);
                assert(post.drop_last() =~= pre);
                assert(post.last() == b);
                let (s2, ph2, out2) = osc_step(s0, ph0, b);
                assert(self.state == s2);
                assert(ps@ == ph2);
                assert(responses@.map_values(|v: Vec<u8>| v@) =~= before + out2);
            }
            i += 1;
        }
        assert(bytes@.subrange(0, bytes@.len() as int) =~= bytes@);
        self.parser_state = ps;
        responses
    }
}

} // verus!

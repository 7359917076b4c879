//! Answers to the cursor position report query (`ESC [ 6 n`) that a child
//! program may write to its terminal.

use vstd::prelude::*;
use crate::screen::Position;
use crate::text::{decimal, push_decimal};

verus! {

pub const ESC: u8 = 0x1b;

/// The one-byte (C1) control sequence introducer.
pub const CSI_C1: u8 = 0x9b;

/// Most parameter bytes kept for one sequence; a longer one is dropped.
pub const CSI_PARAM_CAP: usize = 4096;

/// Where the parser stands in the byte stream.
#[derive(Debug)]
pub enum CsiParserState {
    Ground,
    /// Saw `ESC`.
    Esc,
    /// Inside a control sequence, with the parameter bytes so far.
    Csi(Vec<u8>),
}

/// The parser state as a value.
pub enum CsiPhase {
    Ground,
    Esc,
    Csi(Seq<u8>),
}

impl View for CsiParserState {
    type V = CsiPhase;

    open spec fn view(&self) -> CsiPhase {
        match self {
            CsiParserState::Ground => CsiPhase::Ground,
            CsiParserState::Esc => CsiPhase::Esc,
            CsiParserState::Csi(buf) => CsiPhase::Csi(buf@),
        }
    }
}

/// Stateful recogniser of device status report queries.
#[derive(Debug)]
pub struct CsiEmulator {
    parser_state: CsiParserState,
}

impl View for CsiEmulator {
    type V = CsiPhase;

    closed spec fn view(&self) -> CsiPhase {
        self.parser_state@
    }
}

/// `x + 1`, saturating at the largest `u16`.
pub open spec fn one_based(x: u16) -> nat {
    if x == u16::MAX {
        u16::MAX as nat
    } else {
        (x + 1) as nat
    }
}

/// `s` without leading and trailing ASCII spaces.
pub open spec fn trim_spaces(s: Seq<u8>) -> Seq<u8>
    decreases s.len(),
{
    if s.len() > 0 && s[0] == 0x20 {
        trim_spaces(s.drop_first())
    } else if s.len() > 0 && s.last() == 0x20 {
        trim_spaces(s.drop_last())
    } else {
        s
    }
}

/// The cursor position report: `ESC [ <row> ; <col> R`, with `?` after `[` when `private`.
pub open spec fn cursor_report(private: bool, cursor: Position) -> Seq<u8> {
    seq![ESC, 0x5b] + (if private {
        seq![0x3fu8]
    } else {
        seq![]
    }) + decimal(one_based(cursor.row)) + seq![0x3bu8] + decimal(one_based(cursor.col)) + seq![
        0x52u8,
    ]
}

/// The reply to a finished sequence with parameters `params` and final byte `fin`.
pub open spec fn csi_reply(params: Seq<u8>, fin: u8, cursor: Position) -> Option<Seq<u8>> {
    if fin != 0x6e {
        None
    } else if trim_spaces(params) == seq![0x36u8] {
        Some(cursor_report(false, cursor))
    } else if trim_spaces(params) == seq![0x3fu8, 0x36u8] {
        Some(cursor_report(true, cursor))
    } else {
        None
    }
}

/// One byte: the next state and the replies it produces.
pub open spec fn csi_step(p: CsiPhase, b: u8, cursor: Position) -> (CsiPhase, Seq<Seq<u8>>) {
    match p {
        CsiPhase::Ground => if b == ESC {
            (CsiPhase::Esc, seq![])
        } else if b == CSI_C1 {
            (CsiPhase::Csi(seq![]), seq![])
        } else {
            (CsiPhase::Ground, seq![])
        },
        CsiPhase::Esc => if b == 0x5b {
            (CsiPhase::Csi(seq![]), seq![])
        } else {
            (CsiPhase::Ground, seq![])
        },
        CsiPhase::Csi(buf) => if 0x40 <= b && b <= 0x7e {
            (
                CsiPhase::Ground,
                match csi_reply(buf, b, cursor) {
                    Some(r) => seq![r],
                    None => seq![],
                },
            )
        } else if 0x20 <= b && b <= 0x3f {
            if buf.len() < CSI_PARAM_CAP {
                (CsiPhase::Csi(buf.push(b)), seq![])
            } else {
                (CsiPhase::Ground, seq![])
            }
        } else {
            (CsiPhase::Ground, seq![])
        },
    }
}

/// A whole byte stream: the final state and all replies, in order.
pub open spec fn csi_run(p: CsiPhase, bytes: Seq<u8>, cursor: Position) -> (CsiPhase, Seq<Seq<u8>>)
    decreases bytes.len(),
{
    if bytes.len() == 0 {
        (p, seq![])
    } else {
        let (q, out) = csi_run(p, bytes.drop_last(), cursor);
        let (q2, out2) = csi_step(q, bytes.last(), cursor);
        (q2, out + out2)
    }
}

/// Feeding `a` and then `b` gives the state and the replies of feeding `a + b`.
pub proof fn lemma_csi_chunks(p: CsiPhase, a: Seq<u8>, b: Seq<u8>, cursor: Position)
    ensures
        ({
            let (q, r1) = csi_run(p, a, cursor);
            let (q2, r2) = csi_run(q, b, cursor);
            csi_run(p, a + b, cursor) == (q2, r1 + r2)
        }),
    decreases b.len(),
{
    if b.len() == 0 {
        assert(a + b =~= a);
        let (q, r1) = csi_run(p, a, cursor);
        assert(r1 + seq![] =~= r1);
    } else {
        lemma_csi_chunks(p, a, b.drop_last(), cursor);
        assert((a + b).drop_last() =~= a + b.drop_last());
        assert((a + b).last() == b.last());
        let (q, r1) = csi_run(p, a, cursor);
        let (q1, r2) = csi_run(q, b.drop_last(), cursor);
        let (q2, r3) = csi_step(q1, b.last(), cursor);
        assert(r1 + r2 + r3 =~= r1 + (r2 + r3));
    }
}

/// From the ground state, `ESC [ 6 n` is answered with
/// `ESC [ <row+1> ; <col+1> R` and `ESC [ ? 6 n` with `ESC [ ? <row+1> ; <col+1> R`.
pub proof fn lemma_cursor_query(cursor: Position)
    requires
        cursor.row < u16::MAX,
        cursor.col < u16::MAX,
    ensures
        csi_run(CsiPhase::Ground, seq![ESC, 0x5b, 0x36, 0x6e], cursor).1 == seq![
            seq![ESC, 0x5b] + decimal((cursor.row + 1) as nat) + seq![0x3bu8] + decimal((cursor.col + 1) as nat)
                + seq![0x52u8],
        ],
        csi_run(CsiPhase::Ground, seq![ESC, 0x5b, 0x3f, 0x36, 0x6e], cursor).1 == seq![
            seq![ESC, 0x5b, 0x3f] + decimal((cursor.row + 1) as nat) + seq![0x3bu8] + decimal((cursor.col
                + 1) as nat) + seq![0x52u8],
        ],
{
    let q1: Seq<u8> = seq![ESC, 0x5b, 0x36, 0x6e];
    let q2: Seq<u8> = seq![ESC, 0x5b, 0x3f, 0x36, 0x6e];
    reveal_with_fuel(csi_run, 6);
    reveal_with_fuel(trim_spaces, 3);
    assert(q1.drop_last().drop_last().drop_last().drop_last() =~= seq![]);
    assert(q2.drop_last().drop_last().drop_last().drop_last().drop_last() =~= seq![]);
    assert(seq![0x36u8].drop_first().len() == 0);
    assert(seq![0x3fu8].push(0x36u8) =~= seq![0x3fu8, 0x36u8]);
    assert(seq![].push(0x36u8) =~= seq![0x36u8]);
    assert(seq![ESC, 0x5b] + seq![] =~= seq![ESC, 0x5b]);
    assert(seq![ESC, 0x5b] + seq![0x3fu8] =~= seq![ESC, 0x5b, 0x3f]);
    let e: Seq<Seq<u8>> = seq![];
    assert(e + e + e + e + seq![cursor_report(false, cursor)] =~= seq![cursor_report(false, cursor)]);
    assert(e + e + e + e + e + seq![cursor_report(true, cursor)] =~= seq![cursor_report(true, cursor)]);
}

fn trimmed_spaces(s: &Vec<u8>) -> (r: Vec<u8>)
    ensures
        r@ == trim_spaces(s@),
{
    let mut lo: usize = 0;
    let mut hi: usize = s.len();
    assert(s@.subrange(0, s@.len() as int) =~= s@);
    while lo < hi && s[lo] == 0x20
        invariant
            lo <= hi <= s@.len(),
            hi == s@.len(),
            trim_spaces(s@) == trim_spaces(s@.subrange(lo as int, hi as int)),
        decreases hi - lo,
    {
        assert(s@.subrange(lo as int, hi as int).drop_first() =~= s@.subrange(lo + 1, hi as int));
        lo += 1;
    }
    while lo < hi && s[hi - 1] == 0x20
        invariant
            lo <= hi <= s@.len(),
            lo == hi || s@[lo as int] != 0x20,
            trim_spaces(s@) == trim_spaces(s@.subrange(lo as int, hi as int)),
        decreases hi - lo,
    {
        let ghost t = s@.subrange(lo as int, hi as int);
        assert(t[0] == s@[lo as int]);
        assert(t.drop_last() =~= s@.subrange(lo as int, hi - 1));
        hi -= 1;
    }
    let mut r: Vec<u8> = Vec::new();
    let mut i: usize = lo;
    while i < hi
        invariant
            lo <= i <= hi <= s@.len(),
            r@ == s@.subrange(lo as int, i as int),
        decreases hi - i,
    {
        r.push(s[i]);
        i += 1;
        assert(r@ =~= s@.subrange(lo as int, i as int));
    }
    proof {
        let t = s@.subrange(lo as int, hi as int);
        assert(r@ =~= t);
        if t.len() > 0 {
            assert(t[0] == s@[lo as int]);
            assert(t.last() == s@[hi - 1]);
        }
    }
    r
}

pub(crate) fn one_based_exec(x: u16) -> (r: u32)
    ensures
        r == one_based(x),
{
    if x == u16::MAX {
        x as u32
    } else {
        (x + 1) as u32
    }
}

fn encode_cursor_report(private: bool, cursor: Position) -> (r: Vec<u8>)
    ensures
        r@ == cursor_report(private, cursor),
{
    let mut r: Vec<u8> = vec![ESC, 0x5b];
    if private {
        r.push(0x3f);
    }
    push_decimal(&mut r, one_based_exec(cursor.row));
    r.push(0x3b);
    push_decimal(&mut r, one_based_exec(cursor.col));
    r.push(0x52);
    assert(r@ =~= cursor_report(private, cursor));
    r
}

fn handle_csi_query(params: &Vec<u8>, final_byte: u8, cursor: Position) -> (r: Option<Vec<u8>>)
    ensures
        match r {
            Some(v) => csi_reply(params@, final_byte, cursor) == Some(v@),
            None => csi_reply(params@, final_byte, cursor) is None,
        },
{
    if final_byte != 0x6e {
        return None;
    }
    let p = trimmed_spaces(params);
    if p.len() == 1 && p[0] == 0x36 {
        assert(p@ =~= seq![0x36u8]);
        Some(encode_cursor_report(false, cursor))
    } else if p.len() == 2 && p[0] == 0x3f && p[1] == 0x36 {
        assert(p@ =~= seq![0x3fu8, 0x36u8]);
        assert(p@ != seq![0x36u8]);
        Some(encode_cursor_report(true, cursor))
    } else {
        assert(p@ != seq![0x36u8]);
        assert(p@ != seq![0x3fu8, 0x36u8]);
        None
    }
}

impl CsiEmulator {
    pub fn new() -> (r: Self)
        ensures
            r@ == CsiPhase::Ground,
    {
        CsiEmulator { parser_state: CsiParserState::Ground }
    }

    /// Feeds output bytes of the child; returns the replies to write back, in
    /// order.  `cursor` is the screen's cursor position.
    pub fn process_output(&mut self, bytes: &[u8], cursor: Position) -> (r: Vec<Vec<u8>>)
        ensures
            (final(self)@, r@.map_values(|v: Vec<u8>| v@)) == csi_run(old(self)@, bytes@, cursor),
    {
        let mut st = CsiParserState::Ground;
        std::mem::swap(&mut st, &mut self.parser_state);
        let ghost start = st@;
        let mut responses: Vec<Vec<u8>> = Vec::new();
        let mut i: usize = 0;
        while i < bytes.len()
            invariant
                i <= bytes@.len(),
                (st@, responses@.map_values(|v: Vec<u8>| v@)) == csi_run(
                    start,
                    bytes@.subrange(0, i as int),
                    cursor,
                ),
            decreases bytes@.len() - i,
        {
            let b = bytes[i];
            let ghost before = responses@.map_values(|v: Vec<u8>| v@);
            let ghost p = st@;
            st = match st {
                CsiParserState::Ground => {
                    if b == ESC {
                        CsiParserState::Esc
                    } else if b == CSI_C1 {
                        CsiParserState::Csi(Vec::new())
                    } else {
                        CsiParserState::Ground
                    }
                },
                CsiParserState::Esc => {
                    if b == 0x5b {
                        CsiParserState::Csi(Vec::new())
                    } else {
                        CsiParserState::Ground
                    }
                },
                CsiParserState::Csi(mut buf) => {
                    if 0x40 <= b && b <= 0x7e {
                        match handle_csi_query(&buf, b, cursor) {
                            Some(reply) => responses.push(reply),
                            None => {},
                        }
                        CsiParserState::Ground
                    } else if 0x20 <= b && b <= 0x3f {
                        if buf.len() < CSI_PARAM_CAP {
                            buf.push(b);
                            CsiParserState::Csi(buf)
                        } else {
                            CsiParserState::Ground
                        }
                    } else {
                        CsiParserState::Ground
                    }
                },
            };
            proof {
                let pre = bytes@.subrange(0, i as int);
                let post = bytes@.subrange(0, i + 1);
                assert(post.drop_last() =~= pre);
                assert(post.last() == b);
                let (q2, out2) = csi_step(p, b, cursor);
                assert(responses@.map_values(|v: Vec<u8>| v@) =~= before + out2);
            }
            i += 1;
        }
        assert(bytes@.subrange(0, bytes@.len() as int) =~= bytes@);
        self.parser_state = st;
        responses
    }
}

} // verus!

//! Screen snapshots: a grid of cells with a cursor, and queries over it.

use vstd::prelude::*;
use crate::error::TermwrightError;
use crate::patterns::{pattern_find_all, pattern_is_match, regex_compiles, regex_match_list};
use crate::text::{
    chars_of, contains_chars, is_substring, is_white_space, join_lines, occurs_at, occurs_at_chars, string_of,
    trim_end, trim_end_chars,
};

verus! {

/// Position on the screen, 0-indexed from the top-left corner.
#[derive(Debug, Clone, Copy, PartialEq, Eq, Structural)]
pub struct Position {
    pub row: u16,
    pub col: u16,
}

impl Position {
    pub fn new(row: u16, col: u16) -> (r: Self)
        ensures
            r.row == row,
            r.col == col,
    {
        Position { row, col }
    }
}

/// Screen dimensions.
#[derive(Debug, Clone, Copy, PartialEq, Eq, Structural)]
pub struct Size {
    pub cols: u16,
    pub rows: u16,
}

impl Size {
    pub fn new(cols: u16, rows: u16) -> (r: Self)
        ensures
            r.cols == cols,
            r.rows == rows,
    {
        Size { cols, rows }
    }
}

/// A cell color: the terminal default, a palette index or 24-bit RGB.
#[derive(Debug, Clone, Copy, PartialEq, Eq, Structural)]
pub enum Color {
    Default,
    Indexed(u8),
    Rgb(u8, u8, u8),
}

impl Default for Color {
    fn default() -> (r: Self)
        ensures
            r == Color::Default,
    {
        Color::Default
    }
}

/// Text attributes of a cell.
#[derive(Debug, Clone, Copy, PartialEq, Eq, Structural)]
pub struct CellAttributes {
    pub bold: bool,
    pub italic: bool,
    pub underline: bool,
    pub inverse: bool,
}

impl Default for CellAttributes {
    fn default() -> (r: Self)
        ensures
            !r.bold && !r.italic && !r.underline && !r.inverse,
    {
        CellAttributes { bold: false, italic: false, underline: false, inverse: false }
    }
}

/// One grid position: a character with colors and attributes.
#[derive(Debug, Clone, Copy, PartialEq, Eq, Structural)]
pub struct Cell {
    pub char: char,
    pub fg: Color,
    pub bg: Color,
    pub attrs: CellAttributes,
}

impl Default for Cell {
    fn default() -> (r: Self)
        ensures
            r.char == ' ',
            r.fg == Color::Default,
            r.bg == Color::Default,
            r.attrs == (CellAttributes { bold: false, italic: false, underline: false, inverse: false }),
    {
        Cell { char: ' ', fg: Color::Default, bg: Color::Default, attrs: CellAttributes::default() }
    }
}

/// A text match: where it starts, the matched text and its length.
#[derive(Debug, Clone, PartialEq, Eq)]
pub struct TextMatch {
    pub position: Position,
    pub text: String,
    pub length: usize,
}

/// A rectangle of the screen: rows `start.row..end.row`, columns `start.col..end.col`.
#[derive(Debug, Clone, Copy, PartialEq, Eq, Structural)]
pub struct Region {
    pub start: Position,
    pub end: Position,
}

/// Style of the lines of a detected box.
#[derive(Debug, Clone, Copy, PartialEq, Eq, Structural)]
pub enum BoxStyle {
    Single,
    Double,
    Mixed,
}

/// A bordered rectangle found on the screen.
#[derive(Debug, Clone, Copy, PartialEq, Eq, Structural)]
pub struct DetectedBox {
    /// The rectangle including its border.
    pub region: Region,
    /// The interior, without the border.
    pub inner_region: Region,
    pub style: BoxStyle,
}

/// An immutable snapshot of the screen.
#[derive(Debug, Clone)]
pub struct Screen {
    pub size: Size,
    pub cursor: Position,
    cells: Vec<Vec<Cell>>,
}

/// The mathematical content of a screen snapshot.
pub struct ScreenView {
    pub size: Size,
    pub cursor: Position,
    pub grid: Seq<Seq<Cell>>,
}

impl View for Screen {
    type V = ScreenView;

    closed spec fn view(&self) -> ScreenView {
        ScreenView {
            size: self.size,
            cursor: self.cursor,
            grid: self.cells@.map_values(|row: Vec<Cell>| row@),
        }
    }
}

/// `p` lies in a grid of `size`; in a grid without rows or columns only the
/// origin does.
pub open spec fn cursor_in_grid(p: Position, size: Size) -> bool {
    &&& (if size.rows > 0 {
        p.row < size.rows
    } else {
        p.row == 0
    })
    &&& (if size.cols > 0 {
        p.col < size.cols
    } else {
        p.col == 0
    })
}

/// The characters of a row of cells.
pub open spec fn row_chars(row: Seq<Cell>) -> Seq<char> {
    Seq::new(row.len(), |c: int| row[c].char)
}

/// Each row's characters without trailing white space.
pub open spec fn trimmed_lines(rows: Seq<Seq<Cell>>) -> Seq<Seq<char>> {
    rows.map_values(|row: Seq<Cell>| trim_end(row_chars(row)))
}

/// The part of `row` in columns `sc..ec`, cut at the row's end.
pub open spec fn row_piece(row: Seq<Cell>, sc: int, ec: int) -> Seq<Cell> {
    let e = if ec < row.len() {
        ec
    } else {
        row.len() as int
    };
    row.subrange(sc, if e < sc {
        sc
    } else {
        e
    })
}

/// The pieces of the rows `sr..k` of `g` in columns `sc..ec`; rows past the
/// grid, and rows that end before `sc`, give none.
pub open spec fn region_rows(g: Seq<Seq<Cell>>, sr: int, sc: int, ec: int, k: int) -> Seq<Seq<Cell>>
    decreases k - sr,
{
    if k <= sr {
        seq![]
    } else {
        region_rows(g, sr, sc, ec, k - 1) + if k - 1 < g.len() && sc < g[k - 1].len() {
            seq![row_piece(g[k - 1], sc, ec)]
        } else {
            seq![]
        }
    }
}

/// The cells of region `r` of grid `g`.
pub open spec fn region_cells(g: Seq<Seq<Cell>>, r: Region) -> Seq<Seq<Cell>> {
    region_rows(g, r.start.row as int, r.start.col as int, r.end.col as int, r.end.row as int)
}

/// Positions, below `n`, where `pat` occurs in `line`, in increasing order.
pub open spec fn occurrences_below(line: Seq<char>, pat: Seq<char>, n: nat) -> Seq<int>
    decreases n,
{
    if n == 0 {
        seq![]
    } else {
        occurrences_below(line, pat, (n - 1) as nat) + if occurs_at(line, pat, n - 1) {
            seq![n - 1]
        } else {
            seq![]
        }
    }
}

/// All positions where `pat` occurs in `line`, in increasing order.
pub open spec fn occurrences(line: Seq<char>, pat: Seq<char>) -> Seq<int> {
    occurrences_below(line, pat, line.len() + 1)
}

/// `(row, col)` of each occurrence of `pat` in the first `n` lines, row by row.
pub open spec fn grid_occurrences(grid: Seq<Seq<char>>, pat: Seq<char>, n: nat) -> Seq<(int, int)>
    decreases n,
{
    if n == 0 {
        seq![]
    } else {
        grid_occurrences(grid, pat, (n - 1) as nat) + occurrences(grid[n - 1], pat).map_values(
            |c: int| (n - 1, c),
        )
    }
}

/// `c` draws a top-left corner.
pub open spec fn is_top_left(c: char) -> bool {
    let u = c as u32;
    u == 0x250c || u == 0x2554 || u == 0x250f || u == 0x256d || u == 0x2b
}

fn is_top_left_corner(c: char) -> (r: bool)
    ensures
        r == is_top_left(c),
{
    let u: u32 = c as u32;
    u == 0x250c || u == 0x2554 || u == 0x250f || u == 0x256d || u == 0x2b
}

/// `c` draws a top-right corner.
pub open spec fn is_top_right(c: char) -> bool {
    let u = c as u32;
    u == 0x2510 || u == 0x2557 || u == 0x2513 || u == 0x256e || u == 0x2b
}

fn is_top_right_corner(c: char) -> (r: bool)
    ensures
        r == is_top_right(c),
{
    let u: u32 = c as u32;
    u == 0x2510 || u == 0x2557 || u == 0x2513 || u == 0x256e || u == 0x2b
}

/// `c` draws a bottom-left corner.
pub open spec fn is_bottom_left(c: char) -> bool {
    let u = c as u32;
    u == 0x2514 || u == 0x255a || u == 0x2517 || u == 0x2570 || u == 0x2b
}

fn is_bottom_left_corner(c: char) -> (r: bool)
    ensures
        r == is_bottom_left(c),
{
    let u: u32 = c as u32;
    u == 0x2514 || u == 0x255a || u == 0x2517 || u == 0x2570 || u == 0x2b
}

/// `c` draws a bottom-right corner.
pub open spec fn is_bottom_right(c: char) -> bool {
    let u = c as u32;
    u == 0x2518 || u == 0x255d || u == 0x251b || u == 0x256f || u == 0x2b
}

fn is_bottom_right_corner(c: char) -> (r: bool)
    ensures
        r == is_bottom_right(c),
{
    let u: u32 = c as u32;
    u == 0x2518 || u == 0x255d || u == 0x251b || u == 0x256f || u == 0x2b
}

/// `c` draws a horizontal line.
pub open spec fn is_horizontal(c: char) -> bool {
    let u = c as u32;
    u == 0x2500 || u == 0x2550 || u == 0x2501 || u == 0x2d
}

fn is_horizontal_line(c: char) -> (r: bool)
    ensures
        r == is_horizontal(c),
{
    let u: u32 = c as u32;
    u == 0x2500 || u == 0x2550 || u == 0x2501 || u == 0x2d
}

/// `c` draws a vertical line.
pub open spec fn is_vertical(c: char) -> bool {
    let u = c as u32;
    u == 0x2502 || u == 0x2551 || u == 0x2503 || u == 0x7c
}

fn is_vertical_line(c: char) -> (r: bool)
    ensures
        r == is_vertical(c),
{
    let u: u32 = c as u32;
    u == 0x2502 || u == 0x2551 || u == 0x2503 || u == 0x7c
}

/// A box whose top-left corner is at `(r0, c0)` and bottom-right corner at
/// `(er, ec)`: the top edge runs from the corner over horizontal lines to a
/// top-right corner, the right edge down over vertical lines to a
/// bottom-right corner, and the bottom and left edges are lines of the same
/// kinds, with a bottom-left corner.
pub open spec fn box_at(g: Seq<Seq<char>>, rows: int, cols: int, r0: int, c0: int, er: int, ec: int) -> bool {
    &&& 0 <= r0 < er < rows
    &&& 0 <= c0 < ec < cols
    &&& forall|c: int| c0 < c < ec ==> is_horizontal(#[trigger] g[r0][c])
    &&& is_top_right(g[r0][ec])
    &&& forall|r: int| r0 < r < er ==> is_vertical(#[trigger] g[r][ec])
    &&& is_bottom_right(g[er][ec])
    &&& is_bottom_left(g[er][c0])
    &&& forall|c: int| c0 < c < ec ==> is_horizontal(#[trigger] g[er][c])
    &&& forall|r: int| r0 < r < er ==> is_vertical(#[trigger] g[r][c0])
}

/// The bottom-right corner of the box traced from `(r0, c0)`, if there is one.
pub open spec fn traced_box(g: Seq<Seq<char>>, rows: int, cols: int, r0: int, c0: int) -> Option<(int, int)> {
    if exists|er: int, ec: int| box_at(g, rows, cols, r0, c0, er, ec) {
        let (er, ec) = choose|er: int, ec: int| box_at(g, rows, cols, r0, c0, er, ec);
        Some((er, ec))
    } else {
        None
    }
}

/// The region `rows r0..r1`, `cols c0..c1`.
pub open spec fn region_of(r0: int, r1: int, c0: int, c1: int) -> Region {
    Region {
        start: Position { row: r0 as u16, col: c0 as u16 },
        end: Position { row: r1 as u16, col: c1 as u16 },
    }
}

/// The box with corners `(r0, c0)` and `(er, ec)`.
pub open spec fn detected_box(r0: int, c0: int, er: int, ec: int) -> DetectedBox {
    DetectedBox {
        region: region_of(r0, er + 1, c0, ec + 1),
        inner_region: region_of(r0 + 1, er, c0 + 1, ec),
        style: BoxStyle::Single,
    }
}

/// The box found at `(r, c)`: a top-left corner from which a box traces.
pub open spec fn box_found_at(g: Seq<Seq<char>>, rows: int, cols: int, r: int, c: int) -> Seq<DetectedBox> {
    if is_top_left(g[r][c]) && traced_box(g, rows, cols, r, c) is Some {
        let (er, ec) = traced_box(g, rows, cols, r, c)->0;
        seq![detected_box(r, c, er, ec)]
    } else {
        seq![]
    }
}

/// Boxes found in row `r` at columns below `n`, left to right.
pub open spec fn boxes_in_row(g: Seq<Seq<char>>, rows: int, cols: int, r: int, n: nat) -> Seq<DetectedBox>
    decreases n,
{
    if n == 0 {
        seq![]
    } else {
        boxes_in_row(g, rows, cols, r, (n - 1) as nat) + box_found_at(g, rows, cols, r, n - 1)
    }
}

/// Boxes found in rows below `n`, top to bottom.
pub open spec fn boxes_in_rows(g: Seq<Seq<char>>, rows: int, cols: int, n: nat) -> Seq<DetectedBox>
    decreases n,
{
    if n == 0 {
        seq![]
    } else {
        boxes_in_rows(g, rows, cols, (n - 1) as nat) + boxes_in_row(g, rows, cols, n - 1, cols as nat)
    }
}

proof fn lemma_box_unique(g: Seq<Seq<char>>, rows: int, cols: int, r0: int, c0: int, er1: int, ec1: int, er2: int, ec2: int)
    requires
        box_at(g, rows, cols, r0, c0, er1, ec1),
        box_at(g, rows, cols, r0, c0, er2, ec2),
    ensures
        er1 == er2 && ec1 == ec2,
{
    if ec1 < ec2 {
        assert(is_horizontal(g[r0][ec1]));
    } else if ec2 < ec1 {
        assert(is_horizontal(g[r0][ec2]));
    }
    if er1 < er2 {
        assert(is_vertical(g[er1][ec1]));
    } else if er2 < er1 {
        assert(is_vertical(g[er2][ec2]));
    }
}

fn row_chars_of(row: &Vec<Cell>) -> (v: Vec<char>)
    ensures
        v@ == row_chars(row@),
{
    let mut v: Vec<char> = Vec::new();
    let mut c: usize = 0;
    while c < row.len()
        invariant
            c <= row@.len(),
            v@ == row_chars(row@).subrange(0, c as int),
        decreases row@.len() - c,
    {
        v.push(row[c].char);
        c += 1;
        assert(v@ =~= row_chars(row@).subrange(0, c as int));
    }
    assert(v@ =~= row_chars(row@));
    v
}

/// The rows' characters, each without trailing white space, joined with `\n`.
fn join_trimmed_rows(rows: &Vec<Vec<Cell>>) -> (out: Vec<char>)
    ensures
        out@ == join_lines(trimmed_lines(rows@.map_values(|row: Vec<Cell>| row@))),
{
    let ghost ls = trimmed_lines(rows@.map_values(|row: Vec<Cell>| row@));
    let n = rows.len();
    let mut out: Vec<char> = Vec::new();
    let mut r: usize = 0;
    while r < n
        invariant
            n == rows@.len(),
            r <= n,
            ls == trimmed_lines(rows@.map_values(|row: Vec<Cell>| row@)),
            out@ == join_lines(ls.subrange(0, r as int)),
        decreases n - r,
    {
        let row = row_chars_of(&rows[r]);
        let line = trim_end_chars(&row);
        if r > 0 {
            out.push('\n');
        }
        let mut k: usize = 0;
        let ghost before = out@;
        while k < line.len()
            invariant
                k <= line@.len(),
                out@ == before + line@.subrange(0, k as int),
            decreases line@.len() - k,
        {
            out.push(line[k]);
            k += 1;
            assert(out@ =~= before + line@.subrange(0, k as int));
        }
        proof {
            let l2 = ls.subrange(0, r + 1);
            assert(l2.drop_last() =~= ls.subrange(0, r as int));
            assert(line@.subrange(0, k as int) =~= line@);
            assert(l2.last() == line@);
            assert(out@ =~= join_lines(l2));
        }
        r += 1;
    }
    assert(ls.subrange(0, n as int) =~= ls);
    out
}

impl Screen {
    /// The cells, row by row.
    pub open spec fn grid(&self) -> Seq<Seq<Cell>> {
        self@.grid
    }

    /// The grid has `rows` rows of `cols` cells each, and the cursor lies in
    /// it (at the origin of an empty grid).
    pub open spec fn wf(&self) -> bool {
        &&& self.grid().len() == self@.size.rows
        &&& forall|r: int| 0 <= r < self.grid().len() ==> #[trigger] self.grid()[r].len() == self@.size.cols
        &&& cursor_in_grid(self@.cursor, self@.size)
    }

    /// The characters of each row.
    pub open spec fn char_rows(&self) -> Seq<Seq<char>> {
        self.grid().map_values(|row: Seq<Cell>| row_chars(row))
    }

    /// Each row's characters without trailing white space.
    pub open spec fn lines(&self) -> Seq<Seq<char>> {
        trimmed_lines(self.grid())
    }

    /// The screen as text: trimmed rows joined with `\n`.
    pub open spec fn text_view(&self) -> Seq<char> {
        join_lines(self.lines())
    }

    /// A snapshot of the given cells; `None` unless there are `size.rows`
    /// rows of `size.cols` cells each and the cursor lies in the grid.
    pub fn new(size: Size, cursor: Position, cells: Vec<Vec<Cell>>) -> (r: Option<Screen>)
        ensures
            r is Some <==> (cells@.len() == size.rows && (forall|i: int|
                0 <= i < cells@.len() ==> #[trigger] cells@[i]@.len() == size.cols) && cursor_in_grid(cursor, size)),
            r matches Some(s) ==> s.wf() && s@.size == size && s@.cursor == cursor && s.grid()
                == cells@.map_values(|row: Vec<Cell>| row@),
    {
        if cells.len() != size.rows as usize {
            return None;
        }
        let row_ok = if size.rows > 0 {
            cursor.row < size.rows
        } else {
            cursor.row == 0
        };
        let col_ok = if size.cols > 0 {
            cursor.col < size.cols
        } else {
            cursor.col == 0
        };
        if !(row_ok && col_ok) {
            return None;
        }
        let mut i: usize = 0;
        while i < cells.len()
            invariant
                forall|j: int| 0 <= j < i ==> #[trigger] cells@[j]@.len() == size.cols,
            decreases cells@.len() - i,
        {
            if cells[i].len() != size.cols as usize {
                return None;
            }
            i += 1;
        }
        let s = Screen { size, cursor, cells };
        assert(forall|j: int| 0 <= j < s.grid().len() ==> #[trigger] s.grid()[j] == s.cells@[j]@);
        Some(s)
    }

    fn row_chars_exec(&self, r: usize) -> (v: Vec<char>)
        requires
            r < self.cells@.len(),
        ensures
            v@ == self.char_rows()[r as int],
    {
        row_chars_of(&self.cells[r])
    }

    /// The screen as text: each row without trailing white space, joined with `\n`.
    pub fn text(&self) -> (r: String)
        ensures
            r@ == self.text_view(),
    {
        let out = join_trimmed_rows(&self.cells);
        string_of(&out)
    }

    /// Row `row` without trailing white space, or `None` past the last row.
    pub fn line(&self, row: u16) -> (r: Option<String>)
        ensures
            r is Some <==> (row as int) < self.grid().len(),
            r matches Some(s) ==> s@ == self.lines()[row as int],
    {
        if (row as usize) < self.cells.len() {
            let v = self.row_chars_exec(row as usize);
            let t = trim_end_chars(&v);
            Some(string_of(&t))
        } else {
            None
        }
    }

    /// Whether `text` occurs in the screen's text.
    pub fn contains(&self, text: &str) -> (r: bool)
        ensures
            r == is_substring(text@, self.text_view()),
    {
        let t = self.text();
        let hay = chars_of(t.as_str());
        let pat = chars_of(text);
        contains_chars(&hay, &pat)
    }

    /// Every occurrence of `pattern` in the screen's text that lies within
    /// one row, row by row and left to right within a row; each row is
    /// searched without its trailing white space, and a search resumes one
    /// column after each match.
    pub fn find_text(&self, pattern: &str) -> (r: Vec<TextMatch>)
        requires
            self.wf(),
        ensures
            r@.len() == grid_occurrences(self.lines(), pattern@, self@.size.rows as nat).len(),
            forall|i: int|
                0 <= i < r@.len() ==> {
                    let o = grid_occurrences(self.lines(), pattern@, self@.size.rows as nat)[i];
                    &&& #[trigger] r@[i].position.row == o.0
                    &&& r@[i].position.col == o.1
                    &&& r@[i].text@ == pattern@
                    &&& r@[i].length == pattern@.len()
                },
    {
        let pat = chars_of(pattern);
        let ghost pv = pattern@;
        let ghost g = self.lines();
        let n = self.cells.len();
        let mut out: Vec<TextMatch> = Vec::new();
        let mut r: usize = 0;
        while r < n
            invariant
                self.wf(),
                n == self.cells@.len(),
                n == self.size.rows,
                r <= n,
                pat@ == pv,
                pv == pattern@,
                g == self.lines(),
                out@.len() == grid_occurrences(g, pv, r as nat).len(),
                forall|i: int|
                    0 <= i < out@.len() ==> {
                        let o = grid_occurrences(g, pv, r as nat)[i];
                        &&& #[trigger] out@[i].position.row == o.0
                        &&& out@[i].position.col == o.1
                        &&& out@[i].text@ == pv
                        &&& out@[i].length == pv.len()
                    },
            decreases n - r,
        {
            let row = self.row_chars_exec(r);
            let line = trim_end_chars(&row);
            let ghost base = out@;
            let ghost prev = grid_occurrences(g, pv, r as nat);
            proof {
                assert(row@.len() == self.size.cols) by {
                    assert(self.cells@[r as int]@.len() == self.size.cols);
                }
                lemma_trim_end_shape(row@);
                assert(g[r as int] == trim_end(self.char_rows()[r as int]));
            }
            let mut c: usize = 0;
            while c <= line.len()
                invariant
                    line@ == g[r as int],
                    line@.len() <= u16::MAX,
                    r < n,
                    n <= u16::MAX,
                    pat@ == pv,
                    pv == pattern@,
                    c <= line@.len() + 1,
                    base.len() <= out@.len(),
                    out@.len() == base.len() + occurrences_below(line@, pv, c as nat).len(),
                    out@.subrange(0, base.len() as int) == base,
                    forall|i: int|
                        0 <= i < occurrences_below(line@, pv, c as nat).len() ==> {
                            let m = #[trigger] out@[base.len() + i];
                            &&& m.position.row == r
                            &&& m.position.col == occurrences_below(line@, pv, c as nat)[i]
                            &&& m.text@ == pv
                            &&& m.length == pv.len()
                        },
                decreases line@.len() + 1 - c,
            {
                let ghost old_out = out@;
                let ghost ob_old = occurrences_below(line@, pv, c as nat);
                let hit = occurs_at_chars(&line, &pat, c);
                if hit {
                    let m = TextMatch {
                        position: Position::new(r as u16, c as u16),
                        text: pattern.to_owned(),
                        length: pat.len(),
                    };
                    out.push(m);
                }
                proof {
                    let ob = occurrences_below(line@, pv, (c + 1) as nat);
                    assert(ob == ob_old + if hit {
                        seq![c as int]
                    } else {
                        seq![]
                    });
                    assert forall|i: int| 0 <= i < ob.len() implies {
                        let m = #[trigger] out@[base.len() + i];
                        &&& m.position.row == r
                        &&& m.position.col == ob[i]
                        &&& m.text@ == pv
                        &&& m.length == pv.len()
                    } by {
                        if i < ob_old.len() {
                            assert(out@[base.len() + i] == old_out[base.len() + i]);
                        } else {
                            assert(ob[i] == c);
                        }
                    }
                    assert(out@.subrange(0, base.len() as int) =~= base);
                }
                c += 1;
            }
            proof {
                let occ = occurrences(g[r as int], pv);
                let next = grid_occurrences(g, pv, (r + 1) as nat);
                assert(next == prev + occ.map_values(|cc: int| (r as int, cc)));
                assert forall|i: int| 0 <= i < out@.len() implies {
                    let o = next[i];
                    &&& #[trigger] out@[i].position.row == o.0
                    &&& out@[i].position.col == o.1
                    &&& out@[i].text@ == pv
                    &&& out@[i].length == pv.len()
                } by {
                    if i < base.len() {
                        assert(out@[i] == base[i]);
                    } else {
                        let j = i - base.len();
                        assert(out@[base.len() + j] == out@[i]);
                    }
                }
            }
            r += 1;
        }
        out
    }
}

impl Screen {
    fn char_at(&self, r: usize, c: usize) -> (ch: char)
        requires
            self.wf(),
            r < self@.size.rows,
            c < self@.size.cols,
        ensures
            ch == self.char_rows()[r as int][c as int],
    {
        assert(self.cells@[r as int]@.len() == self@.size.cols) by {
            assert(self.grid()[r as int] == self.cells@[r as int]@);
        }
        self.cells[r][c].char
    }

    /// Traces a box from the top-left corner at `(start_row, start_col)`.
    fn trace_box(&self, start_row: usize, start_col: usize) -> (r: Option<DetectedBox>)
        requires
            self.wf(),
            start_row < self@.size.rows,
            start_col < self@.size.cols,
        ensures
            match traced_box(
                self.char_rows(),
                self@.size.rows as int,
                self@.size.cols as int,
                start_row as int,
                start_col as int,
            ) {
                Some((er, ec)) => r == Some(detected_box(start_row as int, start_col as int, er, ec)),
                None => r is None,
            },
    {
        let ghost g = self.char_rows();
        let rows = self.size.rows as usize;
        let cols = self.size.cols as usize;
        let ghost R = rows as int;
        let ghost C = cols as int;
        let ghost r0 = start_row as int;
        let ghost c0 = start_col as int;
        let mut end_col: usize = start_col + 1;
        while end_col < cols && !is_top_right_corner(self.char_at(start_row, end_col))
            invariant
                self.wf(),
                rows == self@.size.rows,
                cols == self@.size.cols,
                start_row < rows,
                start_col < end_col <= cols,
                g == self.char_rows(),
                r0 == start_row,
                c0 == start_col,
                R == rows,
                C == cols,
                forall|c: int| c0 < c < end_col ==> is_horizontal(#[trigger] g[r0][c]),
            decreases cols - end_col,
        {
            if !is_horizontal_line(self.char_at(start_row, end_col)) {
                proof {
                    assert forall|er: int, ec: int| !box_at(g, R, C, r0, c0, er, ec) by {
                        if box_at(g, R, C, r0, c0, er, ec) {
                            if ec < end_col {
                                assert(is_horizontal(g[r0][ec]));
                            } else if ec > end_col {
                                assert(is_horizontal(g[r0][end_col as int]));
                            }
                        }
                    }
                }
                return None;
            }
            end_col += 1;
        }
        if end_col >= cols {
            proof {
                assert forall|er: int, ec: int| !box_at(g, R, C, r0, c0, er, ec) by {
                    if box_at(g, R, C, r0, c0, er, ec) {
                        assert(is_horizontal(g[r0][ec]));
                    }
                }
            }
            return None;
        }
        let ghost ec0 = end_col as int;
        let mut end_row: usize = start_row + 1;
        while end_row < rows && !is_bottom_right_corner(self.char_at(end_row, end_col))
            invariant
                self.wf(),
                rows == self@.size.rows,
                cols == self@.size.cols,
                start_row < end_row <= rows,
                start_col < end_col < cols,
                g == self.char_rows(),
                r0 == start_row,
                c0 == start_col,
                R == rows,
                C == cols,
                forall|c: int| c0 < c < end_col ==> is_horizontal(#[trigger] g[r0][c]),
                is_top_right(g[r0][end_col as int]),
                forall|r: int| r0 < r < end_row ==> is_vertical(#[trigger] g[r][end_col as int]),
            decreases rows - end_row,
        {
            if !is_vertical_line(self.char_at(end_row, end_col)) {
                proof {
                    assert forall|er: int, ec: int| !box_at(g, R, C, r0, c0, er, ec) by {
                        if box_at(g, R, C, r0, c0, er, ec) {
                            if ec < end_col {
                                assert(is_horizontal(g[r0][ec]));
                            } else if ec > end_col {
                                assert(is_horizontal(g[r0][end_col as int]));
                            } else if er < end_row {
                                assert(is_vertical(g[er][ec]));
                            } else if er > end_row {
                                assert(is_vertical(g[end_row as int][ec]));
                            }
                        }
                    }
                }
                return None;
            }
            end_row += 1;
        }
        proof {
            assert forall|er: int, ec: int| box_at(g, R, C, r0, c0, er, ec) implies er == end_row
                && ec == end_col by {
                if ec < end_col {
                    assert(is_horizontal(g[r0][ec]));
                } else if ec > end_col {
                    assert(is_horizontal(g[r0][end_col as int]));
                } else if er < end_row {
                    assert(is_vertical(g[er][ec]));
                } else if er > end_row {
                    if end_row < rows {
                        assert(is_vertical(g[end_row as int][ec]));
                    }
                }
            }
        }
        if end_row >= rows {
            return None;
        }
        if !is_bottom_left_corner(self.char_at(end_row, start_col)) {
            return None;
        }
        let mut col: usize = start_col + 1;
        while col < end_col
            invariant
                self.wf(),
                rows == self@.size.rows,
                cols == self@.size.cols,
                start_col < end_col < cols,
                end_row < rows,
                start_col + 1 <= col <= end_col || col == start_col + 1,
                g == self.char_rows(),
                r0 == start_row,
                c0 == start_col,
                R == rows,
                C == cols,
                forall|er: int, ec: int| box_at(g, R, C, r0, c0, er, ec) ==> er == end_row && ec
                    == end_col,
                forall|c: int| c0 < c < col ==> is_horizontal(#[trigger] g[end_row as int][c]),
            decreases end_col - col,
        {
            if !is_horizontal_line(self.char_at(end_row, col)) {
                proof {
                    assert forall|er: int, ec: int| !box_at(g, R, C, r0, c0, er, ec) by {
                        if box_at(g, R, C, r0, c0, er, ec) {
                            assert(is_horizontal(g[er][col as int]));
                        }
                    }
                }
                return None;
            }
            col += 1;
        }
        let mut row: usize = start_row + 1;
        while row < end_row
            invariant
                self.wf(),
                rows == self@.size.rows,
                cols == self@.size.cols,
                start_row < end_row < rows,
                start_col < cols,
                start_row + 1 <= row,
                g == self.char_rows(),
                r0 == start_row,
                c0 == start_col,
                R == rows,
                C == cols,
                forall|er: int, ec: int| box_at(g, R, C, r0, c0, er, ec) ==> er == end_row && ec
                    == end_col,
                forall|r: int| r0 < r < row ==> is_vertical(#[trigger] g[r][c0]),
            decreases end_row - row,
        {
            if !is_vertical_line(self.char_at(row, start_col)) {
                proof {
                    assert forall|er: int, ec: int| !box_at(g, R, C, r0, c0, er, ec) by {
                        if box_at(g, R, C, r0, c0, er, ec) {
                            assert(is_vertical(g[row as int][c0]));
                        }
                    }
                }
                return None;
            }
            row += 1;
        }
        proof {
            assert(box_at(g, R, C, r0, c0, end_row as int, end_col as int));
            let (er, ec) = choose|er: int, ec: int| box_at(g, R, C, r0, c0, er, ec);
            lemma_box_unique(g, R, C, r0, c0, er, ec, end_row as int, end_col as int);
        }
        Some(
            DetectedBox {
                region: Region::from_ranges(
                    start_row as u16,
                    (end_row + 1) as u16,
                    start_col as u16,
                    (end_col + 1) as u16,
                ),
                inner_region: Region::from_ranges(
                    (start_row + 1) as u16,
                    end_row as u16,
                    (start_col + 1) as u16,
                    end_col as u16,
                ),
                style: BoxStyle::Single,
            },
        )
    }
}

impl Region {
    pub fn new(start: Position, end: Position) -> (r: Self)
        ensures
            r.start == start,
            r.end == end,
    {
        Region { start, end }
    }

    /// The region `rows row_start..row_end`, `cols col_start..col_end`.
    pub fn from_ranges(row_start: u16, row_end: u16, col_start: u16, col_end: u16) -> (r: Self)
        ensures
            r == region_of(row_start as int, row_end as int, col_start as int, col_end as int),
    {
        Region {
            start: Position { row: row_start, col: col_start },
            end: Position { row: row_end, col: col_end },
        }
    }
}

impl Screen {
    /// The cell at `(row, col)`, or `None` outside the grid.
    pub fn cell(&self, row: u16, col: u16) -> (r: Option<&Cell>)
        ensures
            r is Some <==> (row < self.grid().len() && col < self.grid()[row as int].len()),
            r matches Some(c) ==> *c == self.grid()[row as int][col as int],
    {
        if (row as usize) < self.cells.len() && (col as usize) < self.cells[row as usize].len() {
            Some(&self.cells[row as usize][col as usize])
        } else {
            None
        }
    }

    pub fn cursor(&self) -> (r: Position)
        ensures
            r == self@.cursor,
    {
        self.cursor
    }

    pub fn dimensions(&self) -> (r: Size)
        ensures
            r == self@.size,
    {
        self.size
    }

    /// The cells, row by row.
    pub fn raw_cells(&self) -> (r: &Vec<Vec<Cell>>)
        ensures
            r@.map_values(|row: Vec<Cell>| row@) == self.grid(),
    {
        &self.cells
    }

    /// The rows of cells, top to bottom.
    pub fn rows(&self) -> (r: &[Vec<Cell>])
        ensures
            r@.map_values(|row: Vec<Cell>| row@) == self.grid(),
    {
        self.cells.as_slice()
    }

    /// The region `rows row_range`, `cols col_range`.
    pub fn region(&self, row_range: std::ops::Range<u16>, col_range: std::ops::Range<u16>) -> (r:
        Region)
        ensures
            r == region_of(
                row_range.start as int,
                row_range.end as int,
                col_range.start as int,
                col_range.end as int,
            ),
    {
        Region::from_ranges(row_range.start, row_range.end, col_range.start, col_range.end)
    }

    /// The cells of `region`, row by row; rows outside the grid, and rows that
    /// end before the region's first column, are left out.
    pub fn cells_in_region(&self, region: &Region) -> (r: Vec<Vec<Cell>>)
        ensures
            r@.map_values(|row: Vec<Cell>| row@) == region_cells(self.grid(), *region),
    {
        let ghost g = self.grid();
        let sr = region.start.row as usize;
        let sc = region.start.col as usize;
        let ec = region.end.col as usize;
        let er = region.end.row as usize;
        let mut result: Vec<Vec<Cell>> = Vec::new();
        let mut row: usize = sr;
        while row < er
            invariant
                g == self.grid(),
                sr <= row,
                row <= er || row == sr,
                result@.map_values(|v: Vec<Cell>| v@) == region_rows(
                    g,
                    sr as int,
                    sc as int,
                    ec as int,
                    row as int,
                ),
            decreases er - row,
        {
            let ghost before = result@.map_values(|v: Vec<Cell>| v@);
            if row < self.cells.len() {
                let row_cells = &self.cells[row];
                assert(row_cells@ == g[row as int]);
                if sc < row_cells.len() {
                    let end_col = if ec < row_cells.len() {
                        ec
                    } else {
                        row_cells.len()
                    };
                    let stop = if end_col < sc {
                        sc
                    } else {
                        end_col
                    };
                    let mut piece: Vec<Cell> = Vec::new();
                    let mut c: usize = sc;
                    while c < stop
                        invariant
                            sc <= c <= stop <= row_cells@.len(),
                            piece@ == row_cells@.subrange(sc as int, c as int),
                        decreases stop - c,
                    {
                        piece.push(row_cells[c]);
                        c += 1;
                        assert(piece@ =~= row_cells@.subrange(sc as int, c as int));
                    }
                    assert(piece@ == row_piece(g[row as int], sc as int, ec as int));
                    result.push(piece);
                }
            }
            assert(result@.map_values(|v: Vec<Cell>| v@) =~= region_rows(
                g,
                sr as int,
                sc as int,
                ec as int,
                row + 1,
            ));
            row += 1;
        }
        result
    }

    /// Every box drawn with box-drawing characters, scanning top to bottom
    /// and left to right for top-left corners; overlapping boxes are all kept.
    pub fn detect_boxes(&self) -> (r: Vec<DetectedBox>)
        requires
            self.wf(),
        ensures
            r@ == boxes_in_rows(
                self.char_rows(),
                self@.size.rows as int,
                self@.size.cols as int,
                self@.size.rows as nat,
            ),
    {
        let ghost g = self.char_rows();
        let rows = self.size.rows as usize;
        let cols = self.size.cols as usize;
        let ghost R = rows as int;
        let ghost C = cols as int;
        let mut boxes: Vec<DetectedBox> = Vec::new();
        let mut row: usize = 0;
        while row < rows
            invariant
                self.wf(),
                g == self.char_rows(),
                rows == self@.size.rows,
                cols == self@.size.cols,
                R == rows,
                C == cols,
                row <= rows,
                boxes@ == boxes_in_rows(g, R, C, row as nat),
            decreases rows - row,
        {
            let ghost before = boxes@;
            let mut col: usize = 0;
            while col < cols
                invariant
                    self.wf(),
                    g == self.char_rows(),
                    rows == self@.size.rows,
                    cols == self@.size.cols,
                    R == rows,
                    C == cols,
                    row < rows,
                    col <= cols,
                    boxes@ == before + boxes_in_row(g, R, C, row as int, col as nat),
                decreases cols - col,
            {
                let ghost mid = boxes@;
                if is_top_left_corner(self.char_at(row, col)) {
                    match self.trace_box(row, col) {
                        Some(b) => boxes.push(b),
                        None => {},
                    }
                }
                assert(boxes@ =~= before + boxes_in_row(g, R, C, row as int, (col + 1) as nat));
                col += 1;
            }
            assert(boxes@ =~= boxes_in_rows(g, R, C, (row + 1) as nat));
            row += 1;
        }
        boxes
    }
}

impl Region {
    /// The text of this region of `screen`: each row of the region without
    /// trailing white space, joined with `\n`.
    pub fn extract_text(&self, screen: &Screen) -> (r: String)
        ensures
            r@ == join_lines(trimmed_lines(region_cells(screen.grid(), *self))),
    {
        let rows = screen.cells_in_region(self);
        let out = join_trimmed_rows(&rows);
        string_of(&out)
    }
}

impl DetectedBox {
    /// The text inside the box's border.
    pub fn content(&self, screen: &Screen) -> (r: String)
        ensures
            r@ == join_lines(trimmed_lines(region_cells(screen.grid(), self.inner_region))),
    {
        self.inner_region.extract_text(screen)
    }
}

/// The matches' rows never decrease.
pub open spec fn rows_ascending(ms: Seq<TextMatch>) -> bool {
    forall|i: int, j: int|
        #![trigger ms[i], ms[j]]
        0 <= i < j < ms.len() ==> ms[i].position.row <= ms[j].position.row
}

/// One cell as the terminal emulator reports it.
#[derive(Debug, Clone)]
pub struct EmulatorCell {
    /// The cell's text; empty for a blank cell.
    pub contents: String,
    pub fg: Color,
    pub bg: Color,
    pub bold: bool,
    pub italic: bool,
    pub underline: bool,
    pub inverse: bool,
}

/// A blank cell in default colors.
pub open spec fn default_cell() -> Cell {
    Cell {
        char: ' ',
        fg: Color::Default,
        bg: Color::Default,
        attrs: CellAttributes { bold: false, italic: false, underline: false, inverse: false },
    }
}

/// The snapshot cell of an emulator cell: its first character, a space when
/// it has none, with its colors and attributes.
pub open spec fn cell_from(c: EmulatorCell) -> Cell {
    Cell {
        char: if c.contents@.len() > 0 {
            c.contents@[0]
        } else {
            ' '
        },
        fg: c.fg,
        bg: c.bg,
        attrs: CellAttributes {
            bold: c.bold,
            italic: c.italic,
            underline: c.underline,
            inverse: c.inverse,
        },
    }
}

/// The snapshot cell at `(i, j)` of reported cells: a blank cell where the
/// emulator reported none.
pub open spec fn reported_cell(cells: Seq<Vec<Option<EmulatorCell>>>, i: int, j: int) -> Cell {
    if 0 <= i < cells.len() && 0 <= j < cells[i]@.len() {
        match cells[i]@[j] {
            Some(c) => cell_from(c),
            None => default_cell(),
        }
    } else {
        default_cell()
    }
}

/// `x` held below `n`: the last index for `x >= n`, 0 when `n` is 0.
pub open spec fn held_below(x: u16, n: u16) -> u16 {
    if n == 0 {
        0
    } else if x >= n {
        (n - 1) as u16
    } else {
        x
    }
}

fn held_below_exec(x: u16, n: u16) -> (r: u16)
    ensures
        r == held_below(x, n),
{
    if n == 0 {
        0
    } else if x >= n {
        n - 1
    } else {
        x
    }
}

fn first_char_or_space(s: &String) -> (c: char)
    ensures
        c == if s@.len() > 0 {
            s@[0]
        } else {
            ' '
        },
{
    if s.as_str().unicode_len() > 0 {
        s.as_str().get_char(0)
    } else {
        ' '
    }
}

fn snapshot_cell(cells: &Vec<Vec<Option<EmulatorCell>>>, i: usize, j: usize) -> (r: Cell)
    ensures
        r == reported_cell(cells@, i as int, j as int),
{
    if i < cells.len() && j < cells[i].len() {
        match &cells[i][j] {
            Some(c) => Cell {
                char: first_char_or_space(&c.contents),
                fg: c.fg,
                bg: c.bg,
                attrs: CellAttributes {
                    bold: c.bold,
                    italic: c.italic,
                    underline: c.underline,
                    inverse: c.inverse,
                },
            },
            None => Cell::default(),
        }
    } else {
        Cell::default()
    }
}

impl Screen {
    /// A snapshot of what the terminal emulator reports: a grid of `rows` by
    /// `cols`, the cursor `(row, col)` held to the grid (an emulator leaves it
    /// one past the last column while a wrap is pending), and `cells[i][j]`
    /// for each position, a blank cell where none is reported.
    pub fn from_emulator(
        rows: u16,
        cols: u16,
        cursor: (u16, u16),
        cells: &Vec<Vec<Option<EmulatorCell>>>,
    ) -> (r: Screen)
        ensures
            r.wf(),
            r@.size == (Size { cols, rows }),
            r@.cursor == (Position { row: held_below(cursor.0, rows), col: held_below(cursor.1, cols) }),
            forall|i: int, j: int|
                0 <= i < rows && 0 <= j < cols ==> #[trigger] r.grid()[i][j] == reported_cell(
                    cells@,
                    i,
                    j,
                ),
    {
        let mut out: Vec<Vec<Cell>> = Vec::new();
        let mut row: u16 = 0;
        while row < rows
            invariant
                out@.len() == row,
                row <= rows,
                forall|i: int| 0 <= i < out@.len() ==> #[trigger] out@[i]@.len() == cols,
                forall|i: int, j: int|
                    0 <= i < row && 0 <= j < cols ==> #[trigger] out@[i]@[j] == reported_cell(
                        cells@,
                        i,
                        j,
                    ),
            decreases rows - row,
        {
            let mut row_cells: Vec<Cell> = Vec::new();
            let mut col: u16 = 0;
            while col < cols
                invariant
                    row_cells@.len() == col,
                    col <= cols,
                    forall|j: int| 0 <= j < col ==> #[trigger] row_cells@[j] == reported_cell(
                        cells@,
                        row as int,
                        j,
                    ),
                decreases cols - col,
            {
                row_cells.push(snapshot_cell(cells, row as usize, col as usize));
                col += 1;
            }
            out.push(row_cells);
            row += 1;
        }
        let crow = held_below_exec(cursor.0, rows);
        let ccol = held_below_exec(cursor.1, cols);
        let r = Screen { size: Size::new(cols, rows), cursor: Position::new(crow, ccol), cells: out };
        assert(forall|j: int| 0 <= j < r.grid().len() ==> #[trigger] r.grid()[j] == r.cells@[j]@);
        r
    }

    /// Every match of the regular expression `pattern`, row by row, each row
    /// searched on its own; columns and lengths count characters.
    pub fn find_pattern(&self, pattern: &str) -> (r: Result<Vec<TextMatch>, TermwrightError>)
        requires
            self.wf(),
        ensures
            r is Ok <==> regex_compiles(pattern@),
            r matches Err(e) ==> e is Regex,
            r matches Ok(ms) ==> ms@.len() == pattern_matches(
                pattern@,
                self.char_rows(),
                self@.size.rows as nat,
            ).len() && forall|i: int|
                0 <= i < ms@.len() ==> {
                    let o = pattern_matches(pattern@, self.char_rows(), self@.size.rows as nat)[i];
                    &&& #[trigger] ms@[i].position.row == o.0
                    &&& ms@[i].position.col == o.1
                    &&& ms@[i].length == o.2
                    &&& ms@[i].text@ == o.3
                },
    {
        let ghost g = self.char_rows();
        let ghost pv = pattern@;
        let n = self.cells.len();
        let mut out: Vec<TextMatch> = Vec::new();
        let mut row: usize = 0;
        while row < n
            invariant
                self.wf(),
                n == self.cells@.len(),
                n == self@.size.rows,
                row <= n,
                g == self.char_rows(),
                pv == pattern@,
                row == 0 || regex_compiles(pv),
                out@.len() == pattern_matches(pv, g, row as nat).len(),
                forall|i: int|
                    0 <= i < out@.len() ==> {
                        let o = pattern_matches(pv, g, row as nat)[i];
                        &&& #[trigger] out@[i].position.row == o.0
                        &&& out@[i].position.col == o.1
                        &&& out@[i].length == o.2
                        &&& out@[i].text@ == o.3
                    },
            decreases n - row,
        {
            let chars = self.row_chars_exec(row);
            assert(chars@.len() == self@.size.cols) by {
                assert(self.cells@[row as int]@.len() == self@.size.cols);
            }
            let line = string_of(&chars);
            let found = match pattern_find_all(pattern, line.as_str()) {
                Ok(v) => v,
                Err(e) => return Err(TermwrightError::Regex(e)),
            };
            let ghost base = out@;
            let ghost ml = regex_match_list(pv, g[row as int]);
            let mut k: usize = 0;
            while k < found.len()
                invariant
                    row < n,
                    n <= u16::MAX,
                    line@ == g[row as int],
                    line@.len() <= u16::MAX,
                    ml == regex_match_list(pv, g[row as int]),
                    found@.len() == ml.len(),
                    forall|i: int|
                        0 <= i < found@.len() ==> {
                            let m = #[trigger] ml[i];
                            &&& found@[i].0 as nat == m.0
                            &&& found@[i].1 as nat == m.1
                            &&& found@[i].2@ == m.2
                            &&& found@[i].0 + found@[i].1 <= line@.len()
                        },
                    k <= found@.len(),
                    out@.len() == base.len() + k,
                    out@.subrange(0, base.len() as int) == base,
                    g == self.char_rows(),
                    pv == pattern@,
                    base.len() == pattern_matches(pv, g, row as nat).len(),
                    forall|i: int|
                        0 <= i < base.len() ==> {
                            let o = pattern_matches(pv, g, row as nat)[i];
                            &&& #[trigger] base[i].position.row == o.0
                            &&& base[i].position.col == o.1
                            &&& base[i].length == o.2
                            &&& base[i].text@ == o.3
                        },
                    forall|i: int|
                        0 <= i < k ==> {
                            let m = #[trigger] out@[base.len() + i];
                            &&& m.position.row == row
                            &&& m.position.col == ml[i].0
                            &&& m.length == ml[i].1
                            &&& m.text@ == ml[i].2
                        },
                decreases found@.len() - k,
            {
                let start = found[k].0;
                let len = found[k].1;
                let text = found[k].2.clone();
                proof {
                    let m = ml[k as int];
                }
                let ghost old_out = out@;
                out.push(
                    TextMatch {
                        position: Position::new(row as u16, start as u16),
                        text: text,
                        length: len,
                    },
                );
                proof {
                    assert(out@.subrange(0, base.len() as int) =~= base);
                    assert forall|i: int| 0 <= i < k + 1 implies {
                        let m = #[trigger] out@[base.len() + i];
                        &&& m.position.row == row
                        &&& m.position.col == ml[i].0
                        &&& m.length == ml[i].1
                        &&& m.text@ == ml[i].2
                    } by {
                        if i < k {
                            assert(out@[base.len() + i] == old_out[base.len() + i]);
                        }
                    }
                }
                k += 1;
            }
            proof {
                let next = pattern_matches(pv, g, (row + 1) as nat);
                let prev = pattern_matches(pv, g, row as nat);
                let tail = ml.map_values(|m: (nat, nat, Seq<char>)| (row as int, m.0 as int, m.1 as int, m.2));
                assert(next == prev + tail);
                assert(k == ml.len());
                assert(out@.len() == next.len());
                assert forall|i: int| 0 <= i < base.len() implies {
                    let o = next[i];
                    &&& #[trigger] out@[i].position.row == o.0
                    &&& out@[i].position.col == o.1
                    &&& out@[i].length == o.2
                    &&& out@[i].text@ == o.3
                } by {
                    assert(out@[i] == out@.subrange(0, base.len() as int)[i]);
                    assert(out@[i] == base[i]);
                    assert(base[i].position.row == prev[i].0);
                    assert(base[i].text@ == prev[i].3);
                    assert(next[i] == prev[i]);
                }
                assert forall|i: int| base.len() <= i < out@.len() implies {
                    let o = next[i];
                    &&& #[trigger] out@[i].position.row == o.0
                    &&& out@[i].position.col == o.1
                    &&& out@[i].length == o.2
                    &&& out@[i].text@ == o.3
                } by {
                    let j = i - base.len();
                    assert(out@[base.len() + j] == out@[i]);
                    assert(next[i] == tail[j]);
                }
            }
            row += 1;
        }
        if n == 0 {
            match pattern_is_match(pattern, "") {
                Ok(_) => {},
                Err(e) => return Err(TermwrightError::Regex(e)),
            }
        }
        Ok(out)
    }
}

/// `(row, col, length, text)` of the matches of `pattern` in the first `n`
/// rows, row by row.
pub open spec fn pattern_matches(pattern: Seq<char>, rows: Seq<Seq<char>>, n: nat) -> Seq<(int, int, int, Seq<char>)>
    decreases n,
{
    if n == 0 {
        seq![]
    } else {
        pattern_matches(pattern, rows, (n - 1) as nat) + regex_match_list(pattern, rows[n - 1]).map_values(
            |m: (nat, nat, Seq<char>)| (n - 1, m.0 as int, m.1 as int, m.2),
        )
    }
}

proof fn lemma_piece_of_joined_lines(ls: Seq<Seq<char>>, t: Seq<char>)
    requires
        is_substring(t, join_lines(ls)),
        t.len() > 0,
        forall|j: int| 0 <= j < t.len() ==> t[j] != '\n',
    ensures
        exists|k: int| 0 <= k < ls.len() && is_substring(t, #[trigger] ls[k]),
    decreases ls.len(),
{
    let i = choose|i: int| occurs_at(join_lines(ls), t, i);
    if ls.len() == 0 {
        assert(join_lines(ls).len() == 0);
    } else if ls.len() == 1 {
        assert(is_substring(t, ls[0]));
    } else {
        let jn = join_lines(ls.drop_last());
        let last = ls.last();
        let all = join_lines(ls);
        assert(all == jn + seq!['\n'] + last);
        if i + t.len() <= jn.len() {
            assert(all.subrange(i, i + t.len()) =~= jn.subrange(i, i + t.len()));
            assert(occurs_at(jn, t, i));
            lemma_piece_of_joined_lines(ls.drop_last(), t);
            let k = choose|k: int| 0 <= k < ls.drop_last().len() && is_substring(t, #[trigger] ls.drop_last()[k]);
            assert(ls.drop_last()[k] == ls[k]);
        } else if i > jn.len() {
            let o = i - jn.len() - 1;
            assert(all.subrange(i, i + t.len()) =~= last.subrange(o, o + t.len()));
            assert(occurs_at(last, t, o));
            assert(is_substring(t, ls[ls.len() - 1]));
        } else {
            let j = jn.len() - i;
            assert(t[j] == all.subrange(i, i + t.len())[j]);
            assert(all[jn.len() as int] == '\n');
        }
    }
}

proof fn lemma_line_in_joined_lines(ls: Seq<Seq<char>>, k: int, t: Seq<char>)
    requires
        0 <= k < ls.len(),
        is_substring(t, ls[k]),
    ensures
        is_substring(t, join_lines(ls)),
    decreases ls.len(),
{
    let p = choose|p: int| occurs_at(ls[k], t, p);
    if ls.len() == 1 {
        assert(join_lines(ls) == ls[0]);
    } else {
        let jn = join_lines(ls.drop_last());
        let all = join_lines(ls);
        assert(all == jn + seq!['\n'] + ls.last());
        if k == ls.len() - 1 {
            let o = jn.len() + 1 + p;
            assert(all.subrange(o, o + t.len()) =~= ls[k].subrange(p, p + t.len()));
            assert(occurs_at(all, t, o));
        } else {
            assert(ls.drop_last()[k] == ls[k]);
            lemma_line_in_joined_lines(ls.drop_last(), k, t);
            let q = choose|q: int| occurs_at(jn, t, q);
            assert(all.subrange(q, q + t.len()) =~= jn.subrange(q, q + t.len()));
            assert(occurs_at(all, t, q));
        }
    }
}

proof fn lemma_trim_end_shape(s: Seq<char>)
    ensures
        trim_end(s).len() <= s.len(),
        trim_end(s) == s.subrange(0, trim_end(s).len() as int),
        forall|j: int| trim_end(s).len() <= j < s.len() ==> is_white_space(#[trigger] s[j]),
    decreases s.len(),
{
    if s.len() > 0 && is_white_space(s.last()) {
        lemma_trim_end_shape(s.drop_last());
        assert(s.drop_last().subrange(0, trim_end(s).len() as int) =~= s.subrange(0, trim_end(s).len() as int));
        assert forall|j: int| trim_end(s).len() <= j < s.len() implies is_white_space(#[trigger] s[j]) by {
            if j < s.len() - 1 {
                assert(s.drop_last()[j] == s[j]);
            }
        }
    } else {
        assert(s.subrange(0, s.len() as int) =~= s);
    }
}

proof fn lemma_occurrences_below_nonempty(line: Seq<char>, t: Seq<char>, p: int, n: nat)
    requires
        occurs_at(line, t, p),
        p < n,
    ensures
        occurrences_below(line, t, n).len() > 0,
    decreases n,
{
    if n - 1 != p {
        lemma_occurrences_below_nonempty(line, t, p, (n - 1) as nat);
    }
}

proof fn lemma_occurrences_below_witness(line: Seq<char>, t: Seq<char>, n: nat)
    requires
        occurrences_below(line, t, n).len() > 0,
    ensures
        exists|p: int| occurs_at(line, t, p),
    decreases n,
{
    if n > 0 && !occurs_at(line, t, n - 1) {
        lemma_occurrences_below_witness(line, t, (n - 1) as nat);
    }
}

proof fn lemma_grid_occurrences_nonempty(g: Seq<Seq<char>>, t: Seq<char>, k: int, n: nat)
    requires
        0 <= k < n <= g.len(),
        occurrences(g[k], t).len() > 0,
    ensures
        grid_occurrences(g, t, n).len() > 0,
    decreases n,
{
    if k < n - 1 {
        lemma_grid_occurrences_nonempty(g, t, k, (n - 1) as nat);
    }
}

proof fn lemma_grid_occurrences_witness(g: Seq<Seq<char>>, t: Seq<char>, n: nat)
    requires
        n <= g.len(),
        grid_occurrences(g, t, n).len() > 0,
    ensures
        exists|k: int| 0 <= k < n && occurrences(#[trigger] g[k], t).len() > 0,
    decreases n,
{
    if n > 0 {
        if occurrences(g[n - 1], t).len() > 0 {
            assert(occurrences(g[n - 1], t).len() > 0);
        } else {
            lemma_grid_occurrences_witness(g, t, (n - 1) as nat);
            let k = choose|k: int| 0 <= k < n - 1 && occurrences(#[trigger] g[k], t).len() > 0;
            assert(occurrences(g[k], t).len() > 0);
        }
    }
}

/// Text that occurs in a screen's text, is not empty and holds no line break
/// lies within one row, so `find_text` reports at least one match of it.
pub proof fn lemma_contained_text_is_found(s: Screen, t: Seq<char>)
    requires
        s.wf(),
        is_substring(t, s.text_view()),
        t.len() > 0,
        forall|j: int| 0 <= j < t.len() ==> t[j] != '\n',
    ensures
        grid_occurrences(s.lines(), t, s@.size.rows as nat).len() > 0,
{
    let ls = s.lines();
    lemma_piece_of_joined_lines(ls, t);
    let k = choose|k: int| 0 <= k < ls.len() && is_substring(t, #[trigger] ls[k]);
    let p = choose|p: int| occurs_at(ls[k], t, p);
    lemma_occurrences_below_nonempty(ls[k], t, p, ls[k].len() + 1);
    lemma_grid_occurrences_nonempty(ls, t, k, s@.size.rows as nat);
}

/// Text that `find_text` finds on a screen occurs in the screen's text: where
/// it is absent from the text, `find_text` finds nothing.
pub proof fn lemma_found_text_is_contained(s: Screen, t: Seq<char>)
    requires
        s.wf(),
        grid_occurrences(s.lines(), t, s@.size.rows as nat).len() > 0,
    ensures
        is_substring(t, s.text_view()),
{
    let ls = s.lines();
    lemma_grid_occurrences_witness(ls, t, s@.size.rows as nat);
    let k = choose|k: int| 0 <= k < s@.size.rows && occurrences(#[trigger] ls[k], t).len() > 0;
    lemma_occurrences_below_witness(ls[k], t, ls[k].len() + 1);
    lemma_line_in_joined_lines(ls, k, t);
}

} // verus!

use termwright::screen::{
    BoxStyle, Cell, CellAttributes, Color, EmulatorCell, Position, Region, Size, TextMatch,
};
use termwright::Screen;

fn screen_of(lines: &[&str], cols: u16) -> Screen {
    let mut cells = Vec::new();
    for line in lines {
        let mut row = Vec::new();
        for ch in line.chars() {
            let mut c = Cell::default();
            c.char = ch;
            row.push(c);
        }
        while row.len() < cols as usize {
            row.push(Cell::default());
        }
        cells.push(row);
    }
    Screen::new(Size::new(cols, lines.len() as u16), Position::new(0, 0), cells).unwrap()
}

#[test]
fn test_position() {
    let pos = Position::new(5, 10);
    assert_eq!(pos.row, 5);
    assert_eq!(pos.col, 10);
}

#[test]
fn test_color_default() {
    assert_eq!(Color::default(), Color::Default);
}

#[test]
fn new_rejects_ragged_grids() {
    let cells = vec![vec![Cell::default(); 3], vec![Cell::default(); 2]];
    assert!(Screen::new(Size::new(3, 2), Position::new(0, 0), cells).is_none());
    let cells = vec![vec![Cell::default(); 3]];
    assert!(Screen::new(Size::new(3, 2), Position::new(0, 0), cells).is_none());
    let cells = vec![vec![Cell::default(); 3]; 2];
    assert!(Screen::new(Size::new(3, 2), Position::new(1, 3), cells.clone()).is_none());
    assert!(Screen::new(Size::new(3, 2), Position::new(1, 2), cells).is_some());
}

fn emu(text: &str) -> Option<EmulatorCell> {
    Some(EmulatorCell {
        contents: text.to_string(),
        fg: Color::Default,
        bg: Color::Default,
        bold: false,
        italic: false,
        underline: false,
        inverse: false,
    })
}

#[test]
fn snapshot_holds_a_pending_wrap_cursor_in_the_grid() {
    let cells = vec![vec![emu("a"), emu("b"), emu("c"), emu("d"), emu("e")], vec![emu(""); 5]];
    let s = Screen::from_emulator(2, 5, (0, 5), &cells);
    assert_eq!(s.cursor(), Position::new(0, 4));
    assert_eq!(s.text(), "abcde\n");
}

#[test]
fn text_trims_rows_and_joins_them() {
    let s = screen_of(&["hello", "", "  world"], 10);
    assert_eq!(s.text(), "hello\n\n  world");
    assert_eq!(s.line(0), Some("hello".to_string()));
    assert_eq!(s.line(2), Some("  world".to_string()));
    assert_eq!(s.line(3), None);
}

#[test]
fn contains_and_find_text_agree() {
    let s = screen_of(&["hello world", "say hello"], 12);
    assert!(s.contains("hello"));
    assert!(s.contains("world\nsay"));
    assert!(!s.contains("goodbye"));
    let found = s.find_text("hello");
    assert_eq!(
        found,
        vec![
            TextMatch { position: Position::new(0, 0), text: "hello".to_string(), length: 5 },
            TextMatch { position: Position::new(1, 4), text: "hello".to_string(), length: 5 },
        ]
    );
    assert!(s.find_text("goodbye").is_empty());
}

#[test]
fn find_text_reports_overlapping_matches() {
    let s = screen_of(&["aaa"], 3);
    let cols: Vec<u16> = s.find_text("aa").iter().map(|m| m.position.col).collect();
    assert_eq!(cols, vec![0, 1]);
}

#[test]
fn find_pattern_matches_each_row() {
    let s = screen_of(&["id=12 id=7", "none", "id=3"], 12);
    let found = s.find_pattern("id=[0-9]+").unwrap();
    let got: Vec<(u16, u16, String, usize)> = found
        .iter()
        .map(|m| (m.position.row, m.position.col, m.text.clone(), m.length))
        .collect();
    assert_eq!(
        got,
        vec![
            (0, 0, "id=12".to_string(), 5),
            (0, 6, "id=7".to_string(), 4),
            (2, 0, "id=3".to_string(), 4)
        ]
    );
    assert!(s.find_pattern("(").is_err());
}

#[test]
fn cells_and_regions() {
    let s = screen_of(&["abcd", "efgh", "ijkl"], 4);
    assert_eq!(s.cell(1, 2).map(|c| c.char), Some('g'));
    assert!(s.cell(3, 0).is_none());
    assert!(s.cell(0, 4).is_none());
    let r = s.region(1..3, 1..3);
    assert_eq!(r, Region::from_ranges(1, 3, 1, 3));
    assert_eq!(r.extract_text(&s), "fg\njk");
    let cells = s.cells_in_region(&Region::new(Position::new(0, 2), Position::new(5, 9)));
    let chars: Vec<String> = cells.iter().map(|row| row.iter().map(|c| c.char).collect()).collect();
    assert_eq!(chars, vec!["cd", "gh", "kl"]);
    assert_eq!(s.dimensions(), Size::new(4, 3));
    assert_eq!(s.cursor(), Position::new(0, 0));
    assert_eq!(s.raw_cells().len(), 3);
    assert_eq!(s.rows().len(), 3);
}

#[test]
fn detects_one_single_box() {
    let s = screen_of(&["┌──┐", "│  │", "└──┘", "", ""], 20);
    let boxes = s.detect_boxes();
    assert_eq!(boxes.len(), 1);
    assert_eq!(boxes[0].region, Region::from_ranges(0, 3, 0, 4));
    assert_eq!(boxes[0].inner_region, Region::from_ranges(1, 2, 1, 3));
    assert_eq!(boxes[0].style, BoxStyle::Single);
}

#[test]
fn box_content_and_broken_boxes() {
    let s = screen_of(&["+--+ +-+", "|ab| | |", "+--+ +-x"], 8);
    let boxes = s.detect_boxes();
    assert_eq!(boxes.len(), 1);
    assert_eq!(boxes[0].content(&s), "ab");
}

#[test]
fn nested_boxes_are_all_reported() {
    let s = screen_of(&["╔════╗", "║┌─┐ ║", "║└─┘ ║", "╚════╝"], 6);
    let boxes = s.detect_boxes();
    assert_eq!(boxes.len(), 2);
    assert_eq!(boxes[0].region, Region::from_ranges(0, 4, 0, 6));
    assert_eq!(boxes[1].region, Region::from_ranges(1, 3, 1, 4));
}

#[test]
fn snapshot_of_an_emulator_screen() {
    let mut bold = emu("there").unwrap();
    bold.bold = true;
    bold.fg = Color::Indexed(3);
    let cells = vec![vec![emu("h"), emu("i")], vec![Some(bold), None], vec![emu("é"), emu("")]];
    let s = Screen::from_emulator(4, 3, (1, 1), &cells);
    assert_eq!(s.dimensions(), Size::new(3, 4));
    assert_eq!(s.text(), "hi\nt\né\n");
    assert_eq!(s.cursor(), Position::new(1, 1));
    let c = s.cell(1, 0).unwrap();
    assert_eq!(c.char, 't');
    assert!(c.attrs.bold);
    assert_eq!(c.fg, Color::Indexed(3));
    let blank = s.cell(3, 2).unwrap();
    assert_eq!(blank.char, ' ');
    assert_eq!(blank.attrs, CellAttributes::default());
    assert_eq!(s.cell(1, 1).unwrap().char, ' ');
}

#[test]
fn text_absent_from_the_trimmed_screen_is_never_found() {
    let s = screen_of(&["a"], 2);
    assert_eq!(s.text(), "a");
    assert!(s.find_text("a ").is_empty());
    assert!(!s.contains("a "));
    assert_eq!(s.find_text("a").len(), 1);
}

#[test]
fn pattern_columns_count_characters() {
    let s = screen_of(&["│ ab │ ab"], 12);
    let cols: Vec<(u16, usize)> = s
        .find_pattern("ab")
        .unwrap()
        .iter()
        .map(|m| (m.position.col, m.length))
        .collect();
    assert_eq!(cols, vec![(2, 2), (7, 2)]);
    let empty = Screen::new(Size::new(0, 0), Position::new(0, 0), vec![]).unwrap();
    assert!(empty.find_pattern("(").is_err());
    assert!(empty.find_pattern("x").unwrap().is_empty());
}

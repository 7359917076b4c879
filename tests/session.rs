use termwright::mouse::{
    encode_sgr_mouse, mouse_click_sequence, mouse_down_sequence, mouse_move_sequence,
    mouse_scroll_sequence, mouse_up_sequence, parse_mouse_buttons, MouseButton, ScrollDirection,
};
use termwright::screen::{Cell, Position, Size};
use termwright::terminal::{child_environment, TerminalBuilder, TerminalConfig, DEFAULT_COLS, DEFAULT_ROWS};
use termwright::wait::{DurationExt, WaitBuilder, WaitCondition, WaitState, WaitStep};
use termwright::{Screen, TermwrightError};
use std::time::Duration;

fn screen_of(lines: &[&str], cols: u16) -> Screen {
    let mut cells = Vec::new();
    for line in lines {
        let mut row = Vec::new();
        for ch in line.chars() {
            let mut c = Cell::default();
            c.char = ch;
            row.push(c);
        }
        while row.len() < cols as usize {
            row.push(Cell::default());
        }
        cells.push(row);
    }
    Screen::new(Size::new(cols, lines.len() as u16), Position::new(0, 0), cells).unwrap()
}

#[test]
fn test_terminal_config_default() {
    let config = TerminalConfig::default();
    assert_eq!(config.cols, DEFAULT_COLS);
    assert_eq!(config.rows, DEFAULT_ROWS);
}

#[test]
fn test_builder_size() {
    let builder = TerminalBuilder::new().size(120, 40);
    assert_eq!(builder.config.cols, 120);
    assert_eq!(builder.config.rows, 40);
}

#[test]
fn test_duration_ext() {
    assert_eq!(5.seconds(), Duration::from_secs(5));
    assert_eq!(100.millis(), Duration::from_millis(100));
}

#[test]
fn test_condition_description() {
    let cond = WaitCondition::TextAppears("hello".to_string());
    assert!(cond.description().contains("hello"));
}

#[test]
fn descriptions_of_each_condition() {
    assert_eq!(WaitCondition::TextAppears("a".into()).description(), "text 'a' to appear");
    assert_eq!(WaitCondition::TextDisappears("a".into()).description(), "text 'a' to disappear");
    assert_eq!(WaitCondition::PatternMatches("x+".into()).description(), "pattern 'x+' to match");
    assert_eq!(WaitCondition::CursorAt(Position::new(3, 14)).description(), "cursor at row=3, col=14");
    assert_eq!(WaitCondition::ScreenStable(2500).description(), "screen stable for 2.5s");
    assert_eq!(WaitCondition::ScreenStable(500).description(), "screen stable for 500ms");
    assert_eq!(WaitCondition::ScreenStable(1050).description(), "screen stable for 1.05s");
    assert_eq!(WaitCondition::ScreenStable(3000).description(), "screen stable for 3s");
    assert_eq!(WaitCondition::ScreenStable(0).description(), "screen stable for 0ns");
    assert_eq!(WaitCondition::ProcessExit.description(), "process to exit");
}

#[test]
fn timeout_error_names_the_condition() {
    let w = WaitBuilder::new(WaitCondition::ScreenStable(2500)).timeout(3000);
    match w.timeout_error() {
        TermwrightError::Timeout { condition, timeout_ms } => {
            assert_eq!(condition, "screen stable for 2.5s");
            assert_eq!(timeout_ms, 3000);
        }
        other => panic!("unexpected {:?}", other),
    }
    assert_eq!(WaitBuilder::new(WaitCondition::ProcessExit).get_timeout(), 30000);
    assert_eq!(WaitBuilder::new(WaitCondition::ProcessExit).get_poll_interval(), 50);
    assert_eq!(WaitBuilder::new(WaitCondition::ProcessExit).poll_interval(10).get_poll_interval(), 10);
}

#[test]
fn present_text_satisfies_the_first_poll_even_past_the_deadline() {
    let s = screen_of(&["READY"], 10);
    let w = WaitBuilder::new(WaitCondition::TextAppears("READY".into())).timeout(0);
    let mut st = WaitState::new();
    assert_eq!(w.poll(&mut st, &s, false, 100, 5000), WaitStep::Satisfied);
    let gone = WaitBuilder::new(WaitCondition::TextAppears("nope".into())).timeout(1000);
    let mut st = WaitState::new();
    assert_eq!(gone.poll(&mut st, &s, false, 0, 10), WaitStep::Pending);
    assert_eq!(gone.poll(&mut st, &s, false, 0, 1000), WaitStep::TimedOut);
}

#[test]
fn stability_needs_an_unchanged_interval() {
    let a = screen_of(&["WORKING"], 10);
    let b = screen_of(&["WORKING", "WORKING"], 10);
    let w = WaitBuilder::new(WaitCondition::ScreenStable(500)).timeout(1500);
    let mut st = WaitState::new();
    assert_eq!(w.poll(&mut st, &a, false, 0, 0), WaitStep::Pending);
    assert_eq!(w.poll(&mut st, &a, false, 0, 50), WaitStep::Pending);
    assert_eq!(w.poll(&mut st, &a, false, 0, 300), WaitStep::Pending);
    assert_eq!(w.poll(&mut st, &b, false, 0, 350), WaitStep::Pending);
    assert_eq!(w.poll(&mut st, &b, false, 0, 400), WaitStep::Pending);
    assert_eq!(w.poll(&mut st, &b, false, 0, 900), WaitStep::Satisfied);
}

#[test]
fn other_conditions() {
    let s = screen_of(&["count: 42"], 12);
    let mut st = WaitState::new();
    let exit = WaitBuilder::new(WaitCondition::ProcessExit);
    assert_eq!(exit.poll(&mut st, &s, true, 0, 0), WaitStep::Satisfied);
    assert_eq!(exit.poll(&mut st, &s, false, 0, 0), WaitStep::Pending);
    assert!(WaitCondition::PatternMatches("[0-9]+".into()).is_satisfied(&s, None));
    assert!(!WaitCondition::PatternMatches("(".into()).is_satisfied(&s, None));
    assert!(WaitCondition::PatternNotMatches("x{3}".into()).is_satisfied(&s, None));
    assert!(WaitCondition::TextDisappears("gone".into()).is_satisfied(&s, None));
    assert!(WaitCondition::CursorAt(Position::new(0, 0)).is_satisfied(&s, None));
    assert!(WaitCondition::ScreenStable(10).is_satisfied(&s, Some(&s)));
    assert!(!WaitCondition::ScreenStable(10).is_satisfied(&s, None));
}

#[test]
fn mouse_reports() {
    assert_eq!(
        mouse_click_sequence(4, 9, MouseButton::Left),
        b"\x1b[<0;10;5M\x1b[<3;10;5m".to_vec()
    );
    assert_eq!(mouse_down_sequence(0, 0, MouseButton::Right), b"\x1b[<2;1;1M".to_vec());
    assert_eq!(mouse_up_sequence(1, 2), b"\x1b[<3;3;2m".to_vec());
    assert_eq!(mouse_move_sequence(0, 0, &vec![]), b"\x1b[<35;1;1M".to_vec());
    assert_eq!(mouse_move_sequence(0, 0, &vec![MouseButton::Middle]), b"\x1b[<33;1;1M".to_vec());
    assert_eq!(
        mouse_scroll_sequence(2, 3, ScrollDirection::Down, 2),
        b"\x1b[<65;4;3M\x1b[<65;4;3M".to_vec()
    );
    assert_eq!(encode_sgr_mouse(64, 65535, 0, true), b"\x1b[<64;1;65535M".to_vec());
}

#[test]
fn mouse_names() {
    assert_eq!(MouseButton::from_name(" Right ").unwrap(), MouseButton::Right);
    assert_eq!(MouseButton::from_name("MIDDLE").unwrap(), MouseButton::Middle);
    assert_eq!(MouseButton::from_name(" Back").unwrap_err(), "unknown mouse button: back");
    assert_eq!(ScrollDirection::from_name("Up").unwrap(), ScrollDirection::Up);
    assert_eq!(ScrollDirection::from_name("sideways").unwrap_err(), "unknown scroll direction: sideways");
    assert_eq!(MouseButton::Left.press_code(), 0);
    assert_eq!(ScrollDirection::Down.sgr_code(), 65);
    assert_eq!(MouseButton::Middle.name(), "middle");
    let names = vec!["left".to_string(), "right".to_string()];
    assert_eq!(parse_mouse_buttons(Some(&names)).unwrap(), vec![MouseButton::Left, MouseButton::Right]);
    assert!(parse_mouse_buttons(None).unwrap().is_empty());
    let bad = vec!["left".to_string(), "thumb".to_string()];
    assert!(matches!(parse_mouse_buttons(Some(&bad)), Err(TermwrightError::Protocol(_))));
}

#[test]
fn builder_settings() {
    let b = TerminalBuilder::new()
        .env("A".to_string(), "1".to_string())
        .env("B".to_string(), "2".to_string())
        .env("A".to_string(), "3".to_string())
        .working_dir("/tmp".to_string())
        .timeout(1234)
        .no_default_env()
        .no_osc_emulation();
    assert_eq!(*b.config.env.vars(), vec![("B".to_string(), "2".to_string()), ("A".to_string(), "3".to_string())]);
    assert_eq!(b.config.working_dir, Some("/tmp".to_string()));
    assert_eq!(b.config.timeout_ms, 1234);
    assert!(!b.inject_default_env);
    assert!(!b.osc_emulation);
}

#[test]
fn child_environment_defaults() {
    let b = TerminalBuilder::new().env("TERM".to_string(), "dumb".to_string());
    let e = child_environment(&b.config, true);
    assert_eq!(
        e.set,
        vec![
            ("TERM".to_string(), "dumb".to_string()),
            ("COLORTERM".to_string(), "truecolor".to_string())
        ]
    );
    assert_eq!(e.remove, vec!["NO_COLOR".to_string()]);
    let plain = TerminalBuilder::new();
    let e = child_environment(&plain.config, true);
    assert_eq!(e.set[0], ("TERM".to_string(), "xterm-256color".to_string()));
    let keep = TerminalBuilder::new().env("NO_COLOR".to_string(), "1".to_string());
    assert!(child_environment(&keep.config, true).remove.is_empty());
    let off = child_environment(&plain.config, false);
    assert!(off.set.is_empty() && off.remove.is_empty());
}

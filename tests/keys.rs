use termwright::keys::{key_from_normalized, parse_key};
use termwright::Key;
use termwright::TermwrightError;

#[test]
fn test_char_sequence() {
    assert_eq!(Key::Char('a').to_escape_sequence(), vec![b'a']);
    assert_eq!(Key::Char('Z').to_escape_sequence(), vec![b'Z']);
}

#[test]
fn test_special_keys() {
    assert_eq!(Key::Enter.to_escape_sequence(), vec![b'\r']);
    assert_eq!(Key::Tab.to_escape_sequence(), vec![b'\t']);
    assert_eq!(Key::Escape.to_escape_sequence(), vec![0x1b]);
}

#[test]
fn test_arrow_keys() {
    assert_eq!(Key::Up.to_escape_sequence(), vec![0x1b, b'[', b'A']);
    assert_eq!(Key::Down.to_escape_sequence(), vec![0x1b, b'[', b'B']);
    assert_eq!(Key::Right.to_escape_sequence(), vec![0x1b, b'[', b'C']);
    assert_eq!(Key::Left.to_escape_sequence(), vec![0x1b, b'[', b'D']);
}

#[test]
fn test_ctrl_key() {
    assert_eq!(Key::Ctrl('c').to_escape_sequence(), vec![0x03]);
    assert_eq!(Key::Ctrl('a').to_escape_sequence(), vec![0x01]);
    assert_eq!(Key::Ctrl('z').to_escape_sequence(), vec![0x1a]);
}

#[test]
fn test_alt_key() {
    assert_eq!(Key::Alt('x').to_escape_sequence(), vec![0x1b, b'x']);
}

#[test]
fn undefined_keys_encode_to_nothing() {
    assert!(Key::F(13).to_escape_sequence().is_empty());
    assert!(Key::F(0).to_escape_sequence().is_empty());
    assert!(Key::Ctrl('$').to_escape_sequence().is_empty());
    assert!(!Key::F(12).to_escape_sequence().is_empty());
    assert!(!Key::Ctrl('Q').to_escape_sequence().is_empty());
}

#[test]
fn encodings_of_the_round_trip_examples() {
    assert_eq!(Key::Ctrl('c').to_escape_sequence(), vec![0x03]);
    assert_eq!(Key::Alt('x').to_escape_sequence(), vec![0x1b, b'x']);
    assert_eq!(Key::Up.to_escape_sequence(), vec![0x1b, b'[', b'A']);
    assert_eq!(Key::Ctrl('C').to_escape_sequence(), vec![0x03]);
}

#[test]
fn other_named_keys() {
    assert_eq!(Key::Backspace.to_escape_sequence(), vec![0x7f]);
    assert_eq!(Key::Delete.to_escape_sequence(), b"\x1b[3~".to_vec());
    assert_eq!(Key::Home.to_escape_sequence(), b"\x1b[H".to_vec());
    assert_eq!(Key::End.to_escape_sequence(), b"\x1b[F".to_vec());
    assert_eq!(Key::PageUp.to_escape_sequence(), b"\x1b[5~".to_vec());
    assert_eq!(Key::PageDown.to_escape_sequence(), b"\x1b[6~".to_vec());
    assert_eq!(Key::F(1).to_escape_sequence(), b"\x1bOP".to_vec());
    assert_eq!(Key::F(4).to_escape_sequence(), b"\x1bOS".to_vec());
    assert_eq!(Key::F(5).to_escape_sequence(), b"\x1b[15~".to_vec());
    assert_eq!(Key::F(11).to_escape_sequence(), b"\x1b[23~".to_vec());
    assert_eq!(Key::F(12).to_escape_sequence(), b"\x1b[24~".to_vec());
}

#[test]
fn multibyte_characters_encode_as_utf8() {
    assert_eq!(Key::Char('é').to_escape_sequence(), vec![0xc3, 0xa9]);
    assert_eq!(Key::Alt('€').to_escape_sequence(), vec![0x1b, 0xe2, 0x82, 0xac]);
}

#[test]
fn press_names_parse() {
    assert_eq!(parse_key("Enter").unwrap(), Key::Enter);
    assert_eq!(parse_key("  ESC ").unwrap(), Key::Escape);
    assert_eq!(parse_key("esc").unwrap(), Key::Escape);
    assert_eq!(parse_key("Del").unwrap(), Key::Delete);
    assert_eq!(parse_key("Page_Up").unwrap(), Key::PageUp);
    assert_eq!(parse_key("pagedown").unwrap(), Key::PageDown);
    assert_eq!(parse_key("F5").unwrap(), Key::F(5));
    assert_eq!(parse_key("f12").unwrap(), Key::F(12));
    assert_eq!(parse_key("x").unwrap(), Key::Char('x'));
    assert_eq!(parse_key("F").unwrap(), Key::Char('F'));
}

#[test]
fn bad_press_names_fail() {
    match parse_key("") {
        Err(TermwrightError::Protocol(m)) => assert_eq!(m, "empty key"),
        other => panic!("unexpected {:?}", other),
    }
    match parse_key("nonsense") {
        Err(TermwrightError::Protocol(m)) => assert_eq!(m, "invalid key: nonsense"),
        other => panic!("unexpected {:?}", other),
    }
}

#[test]
fn only_f1_to_f12_name_function_keys() {
    for bad in ["f13", "f0", "f255", "f+5", "f007", "F13"] {
        assert!(matches!(parse_key(bad), Err(TermwrightError::Protocol(_))), "{bad}");
    }
    assert_eq!(parse_key("F1").unwrap(), Key::F(1));
    assert_eq!(parse_key("f10").unwrap(), Key::F(10));
}

#[test]
fn normalized_key_names() {
    assert_eq!(key_from_normalized("tab", "TAB").unwrap(), Key::Tab);
    assert_eq!(key_from_normalized("f3", "F3").unwrap(), Key::F(3));
    assert_eq!(key_from_normalized("q", "q").unwrap(), Key::Char('q'));
    assert!(key_from_normalized("fx", "fx").is_err());
}

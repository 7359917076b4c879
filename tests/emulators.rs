use termwright::csi::CsiEmulator;
use termwright::osc::{parse_color, OscColorState, OscEmulator, Rgb8};
use termwright::screen::Position;
use termwright::terminal::QueryResponder;

#[test]
fn responds_to_csi_6n() {
    let mut csi = CsiEmulator::new();
    let responses = csi.process_output(b"\x1b[6n", Position::new(4, 9));
    assert_eq!(responses, vec![b"\x1b[5;10R".to_vec()]);
}

#[test]
fn responds_to_private_csi_6n() {
    let mut csi = CsiEmulator::new();
    let responses = csi.process_output(b"\x1b[?6n", Position::new(2, 3));
    assert_eq!(responses, vec![b"\x1b[?3;4R".to_vec()]);
}

#[test]
fn responds_to_c1_csi() {
    let mut csi = CsiEmulator::new();
    let responses = csi.process_output(b"\x9b6n", Position::new(0, 0));
    assert_eq!(responses, vec![b"\x1b[1;1R".to_vec()]);
}

#[test]
fn handles_split_sequence_across_chunks() {
    let mut csi = CsiEmulator::new();
    assert!(csi.process_output(b"\x1b[", Position::new(0, 0)).is_empty());
    assert!(csi.process_output(b"6", Position::new(0, 0)).is_empty());
    let responses = csi.process_output(b"n", Position::new(0, 0));
    assert_eq!(responses, vec![b"\x1b[1;1R".to_vec()]);
}

#[test]
fn ignores_non_cursor_query() {
    let mut csi = CsiEmulator::new();
    assert!(csi.process_output(b"\x1b[5n", Position::new(1, 1)).is_empty());
}

#[test]
fn cursor_report_at_the_largest_position_saturates() {
    let mut csi = CsiEmulator::new();
    let responses = csi.process_output(b"\x1b[ 6 n", Position::new(u16::MAX, 7));
    assert_eq!(responses, vec![b"\x1b[65535;8R".to_vec()]);
}

#[test]
fn csi_replies_do_not_depend_on_chunking() {
    let input = b"ab\x1b[6n\x1b[?6ncd\x1b[2J\x9b6n";
    let mut whole = CsiEmulator::new();
    let all = whole.process_output(input, Position::new(3, 7));
    let mut split = CsiEmulator::new();
    let mut pieces = Vec::new();
    for b in input.iter() {
        pieces.extend(split.process_output(&[*b], Position::new(3, 7)));
    }
    assert_eq!(all.len(), 3);
    assert_eq!(all, pieces);
}

#[test]
fn query_11_bel_response_is_rgb_format() {
    let mut osc = OscEmulator::new(OscColorState {
        foreground: Rgb8 { r: 0x20, g: 0x30, b: 0x40 },
        background: Rgb8 { r: 0x2c, g: 0x2c, b: 0x2c },
        cursor: Rgb8 { r: 0x20, g: 0x30, b: 0x40 },
    });

    let responses = osc.process_output(b"\x1b]11;?\x07");
    assert_eq!(responses.len(), 1);
    let response = std::str::from_utf8(&responses[0]).unwrap();
    assert_eq!(response, "\x1b]11;rgb:2c2c/2c2c/2c2c\x07");
}

#[test]
fn query_10_st_response_uses_st_terminator() {
    let mut osc = OscEmulator::new(OscColorState {
        foreground: Rgb8 { r: 0x1a, g: 0x2b, b: 0x3c },
        background: Rgb8 { r: 0x00, g: 0x00, b: 0x00 },
        cursor: Rgb8 { r: 0x1a, g: 0x2b, b: 0x3c },
    });

    let responses = osc.process_output(b"\x1b]10;?\x1b\\");
    assert_eq!(responses.len(), 1);
    let response = std::str::from_utf8(&responses[0]).unwrap();
    assert_eq!(response, "\x1b]10;rgb:1a1a/2b2b/3c3c\x1b\\");
}

#[test]
fn parser_handles_split_chunks() {
    let mut osc = OscEmulator::new(OscColorState::default());
    assert!(osc.process_output(b"\x1b]11;").is_empty());
    let responses = osc.process_output(b"?\x07");
    assert_eq!(responses.len(), 1);
}

#[test]
fn set_command_updates_future_query() {
    let mut osc = OscEmulator::new(OscColorState::default());
    assert!(osc.process_output(b"\x1b]11;#2c2c2c\x07").is_empty());
    let responses = osc.process_output(b"\x1b]11;?\x07");
    let response = std::str::from_utf8(&responses[0]).unwrap();
    assert_eq!(response, "\x1b]11;rgb:2c2c/2c2c/2c2c\x07");
}

#[test]
fn malformed_set_is_ignored() {
    let mut osc = OscEmulator::new(OscColorState::default());
    assert!(osc.process_output(b"\x1b]11;not-a-color\x07").is_empty());
    let responses = osc.process_output(b"\x1b]11;?\x07");
    let response = std::str::from_utf8(&responses[0]).unwrap();
    assert_eq!(response, "\x1b]11;rgb:0000/0000/0000\x07");
}

#[test]
fn parses_multi_sequence_chunk() {
    let mut osc = OscEmulator::new(OscColorState::default());
    let responses = osc.process_output(b"\x1b]10;?\x07\x1b]11;?\x07");
    assert_eq!(responses.len(), 2);
}

#[test]
fn parse_rgb_spec_short_and_long_components() {
    assert_eq!(parse_color("rgb:f/0/8"), Some(Rgb8 { r: 0xff, g: 0x00, b: 0x88 }));
    assert_eq!(parse_color("rgb:ffff/7fff/0000"), Some(Rgb8 { r: 0xff, g: 0x7f, b: 0x00 }));
}

#[test]
fn color_parsing_rejects_malformed_values() {
    assert_eq!(parse_color("#abcdef"), Some(Rgb8 { r: 0xab, g: 0xcd, b: 0xef }));
    assert_eq!(parse_color("#ABCDEF"), Some(Rgb8 { r: 0xab, g: 0xcd, b: 0xef }));
    assert_eq!(parse_color("#abcde"), None);
    assert_eq!(parse_color("#abcdeg"), None);
    assert_eq!(parse_color("rgb:f/0"), None);
    assert_eq!(parse_color("rgb:f/0/8/1"), None);
    assert_eq!(parse_color("rgb:12345/0/0"), None);
    assert_eq!(parse_color("rgb://0"), None);
    assert_eq!(parse_color("rgb:80/80/80"), Some(Rgb8 { r: 0x80, g: 0x80, b: 0x80 }));
    assert_eq!(parse_color("rgb:8/8/8"), Some(Rgb8 { r: 0x88, g: 0x88, b: 0x88 }));
    assert_eq!(parse_color("red"), None);
}

#[test]
fn set_then_query_round_trip() {
    let mut osc = OscEmulator::new(OscColorState::default());
    assert!(osc.process_output(b"\x1b]11;#abcdef\x07").is_empty());
    let responses = osc.process_output(b"\x1b]11;?\x07");
    assert_eq!(responses, vec![b"\x1b]11;rgb:abab/cdcd/efef\x07".to_vec()]);
}

#[test]
fn replies_keep_the_query_terminator() {
    let mut osc = OscEmulator::new(OscColorState::default());
    let bel = osc.process_output(b"\x1b]12;?\x07");
    assert_eq!(bel, vec![b"\x1b]12;rgb:f0f0/f0f0/f0f0\x07".to_vec()]);
    let st = osc.process_output(b"\x9d12;?\x1b\\");
    assert_eq!(st, vec![b"\x1b]12;rgb:f0f0/f0f0/f0f0\x1b\\".to_vec()]);
}

#[test]
fn default_colors() {
    let mut osc = OscEmulator::new(termwright::osc::initial_color_state());
    let r = osc.process_output(b"\x1b]10;?\x07\x1b]11;?\x07");
    assert_eq!(r[0], b"\x1b]10;rgb:f0f0/f0f0/f0f0\x07".to_vec());
    assert_eq!(r[1], b"\x1b]11;rgb:0000/0000/0000\x07".to_vec());
}

#[test]
fn other_codes_and_payloads_are_ignored() {
    let mut osc = OscEmulator::new(OscColorState::default());
    assert!(osc.process_output(b"\x1b]13;?\x07").is_empty());
    assert!(osc.process_output(b"\x1b]0;title\x07").is_empty());
    assert!(osc.process_output(b"\x1b]11?\x07").is_empty());
    assert_eq!(osc.process_output(b"\x1b]+11; ? \x07").len(), 1);
}

#[test]
fn color_state_get_and_set() {
    let mut s = OscColorState::default();
    assert!(s.set(12, Rgb8 { r: 1, g: 2, b: 3 }));
    assert_eq!(s.get(12), Some(Rgb8 { r: 1, g: 2, b: 3 }));
    assert!(!s.set(13, Rgb8 { r: 1, g: 2, b: 3 }));
    assert_eq!(s.get(13), None);
}

#[test]
fn osc_replies_do_not_depend_on_chunking() {
    let input = b"x\x1b]11;#102030\x07\x1b]11;?\x1b\\y\x9d10;?\x07";
    let mut whole = OscEmulator::new(OscColorState::default());
    let all = whole.process_output(input);
    let mut split = OscEmulator::new(OscColorState::default());
    let mut pieces = Vec::new();
    for b in input.iter() {
        pieces.extend(split.process_output(&[*b]));
    }
    assert_eq!(all.len(), 2);
    assert_eq!(all, pieces);
}

#[test]
fn responder_concatenates_osc_then_csi() {
    let mut r = QueryResponder::new(true);
    let out = r.replies(b"\x1b[6n\x1b]11;?\x07", Position::new(0, 2));
    assert_eq!(out, b"\x1b]11;rgb:0000/0000/0000\x07\x1b[1;3R".to_vec());
    let mut fresh = QueryResponder::new(true);
    assert_eq!(fresh.replies(b"\x1b[6n", Position::new(0, 0)), b"\x1b[1;1R".to_vec());
    let mut split = QueryResponder::new(true);
    assert!(split.replies(b"\x1b]11", Position::new(0, 0)).is_empty());
    assert_eq!(split.replies(b";?\x07", Position::new(0, 0)), b"\x1b]11;rgb:0000/0000/0000\x07".to_vec());
    let mut plain = QueryResponder::new(false);
    let out = plain.replies(b"\x1b[6n\x1b]11;?\x07", Position::new(0, 2));
    assert_eq!(out, b"\x1b[1;3R".to_vec());
}

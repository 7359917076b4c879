use termwright::daemon::{
    hotkey_key, is_closing, reply_outcome, RequestIds, method_of, mouse_click_bytes, mouse_move_bytes, mouse_scroll_bytes,
    not_expect_pattern, not_expect_text, parse_error_response, press_key, raw_bytes, respond,
    wait_request, DaemonConfig, Method,
};
use termwright::protocol::{
    HandshakeResult, HotkeyParams, MouseClickParams, MouseMoveParams, MouseScrollParams,
    PressParams, RawParams, Response, ScreenFormat, ScreenParams, StatusResult, PROTOCOL_VERSION,
};
use termwright::screen::{Cell, Position, Size};
use termwright::wait::WaitCondition;
use termwright::{Key, Screen, TermwrightError};

fn screen_of(lines: &[&str], cols: u16) -> Screen {
    let mut cells = Vec::new();
    for line in lines {
        let mut row = Vec::new();
        for ch in line.chars() {
            let mut c = Cell::default();
            c.char = ch;
            row.push(c);
        }
        while row.len() < cols as usize {
            row.push(Cell::default());
        }
        cells.push(row);
    }
    Screen::new(Size::new(cols, lines.len() as u16), Position::new(0, 0), cells).unwrap()
}

#[test]
fn replies_echo_the_request_id() {
    for id in [0u64, 1, 7, u64::MAX] {
        let ok = respond(id, &Method::Type, Ok(None));
        assert_eq!(ok.id, id);
        assert!(ok.error.is_none());
        let failed = respond(id, &Method::Press, Err("bad".to_string()));
        assert_eq!(failed.id, id);
        let e = failed.error.unwrap();
        assert_eq!((e.code.as_str(), e.message.as_str()), ("error", "bad"));
    }
    let v = serde_json::Value::from(3);
    let r = respond(9, &Method::Handshake, Ok(Some(v.clone())));
    assert_eq!(r.result, Some(v));
}

#[test]
fn close_and_unknown_methods() {
    let close = respond(4, &Method::Close, Ok(None));
    assert!(is_closing(&close));
    assert!(close.result.is_none());
    assert_eq!(close.id, 4);
    let m = method_of("frobnicate");
    assert_eq!(m, Method::Unknown("frobnicate".to_string()));
    let r = respond(5, &m, Ok(None));
    let e = r.error.as_ref().unwrap();
    assert_eq!(e.code, "unknown_method");
    assert_eq!(e.message, "unknown method: frobnicate");
    assert!(!is_closing(&r));
    let p = parse_error_response("eof".to_string());
    assert_eq!(p.id, 0);
    assert!(p.result.is_none());
    assert_eq!(p.error.unwrap().code, "parse_error");
    assert!(!is_closing(&Response::ok_empty(1)));
}

#[test]
fn method_names() {
    assert_eq!(method_of("handshake"), Method::Handshake);
    assert_eq!(method_of("wait_for_text_gone"), Method::WaitForTextGone);
    assert_eq!(method_of("wait_for_cursor_at"), Method::WaitForCursorAt);
    assert_eq!(method_of("not_expect_pattern"), Method::NotExpectPattern);
    assert_eq!(method_of("detect_boxes"), Method::DetectBoxes);
    assert_eq!(method_of("close"), Method::Close);
}

#[test]
fn request_parameters_become_input() {
    let hk = HotkeyParams { ctrl: Some(true), alt: Some(true), ch: 'c' };
    assert_eq!(hotkey_key(&hk), Key::Ctrl('c'));
    let hk = HotkeyParams { ctrl: None, alt: Some(true), ch: 'x' };
    assert_eq!(hotkey_key(&hk), Key::Alt('x'));
    let hk = HotkeyParams { ctrl: Some(false), alt: None, ch: 'q' };
    assert_eq!(hotkey_key(&hk), Key::Char('q'));
    assert_eq!(press_key(&PressParams { key: "Page_Down".into() }).unwrap(), Key::PageDown);
    assert_eq!(raw_bytes(&RawParams { bytes_base64: "G1s2bg==".into() }).unwrap(), b"\x1b[6n".to_vec());
    assert!(matches!(
        raw_bytes(&RawParams { bytes_base64: "***".into() }),
        Err(TermwrightError::Protocol(_))
    ));
    let click = MouseClickParams { row: 1, col: 2, button: None };
    assert_eq!(mouse_click_bytes(&click).unwrap(), b"\x1b[<0;3;2M\x1b[<3;3;2m".to_vec());
    let click = MouseClickParams { row: 1, col: 2, button: Some("wheel".into()) };
    assert!(mouse_click_bytes(&click).is_err());
    let mv = MouseMoveParams { row: 0, col: 0, buttons: Some(vec!["right".into()]) };
    assert_eq!(mouse_move_bytes(&mv).unwrap(), b"\x1b[<34;1;1M".to_vec());
    let sc = MouseScrollParams { row: 0, col: 0, direction: "up".into(), count: None };
    assert_eq!(mouse_scroll_bytes(&sc).unwrap(), b"\x1b[<64;1;1M".to_vec());
    let sc = MouseScrollParams { row: 0, col: 0, direction: "left".into(), count: Some(2) };
    assert!(mouse_scroll_bytes(&sc).is_err());
}

#[test]
fn negative_expectations() {
    let s = screen_of(&["hello"], 8);
    assert!(not_expect_text(&s, "goodbye").is_ok());
    match not_expect_text(&s, "hell") {
        Err(TermwrightError::Protocol(m)) => assert_eq!(m, "unexpected text on screen: hell"),
        other => panic!("unexpected {:?}", other),
    }
    assert!(not_expect_pattern(&s, "^bye").is_ok());
    assert!(not_expect_pattern(&s, "h.l").is_err());
    assert!(matches!(not_expect_pattern(&s, "("), Err(TermwrightError::Regex(_))));
}

#[test]
fn wait_requests_and_records() {
    let w = wait_request(WaitCondition::TextAppears("x".into()), Some(1000));
    assert_eq!(w.get_timeout(), 1000);
    let w = wait_request(WaitCondition::ProcessExit, None);
    assert_eq!(w.get_timeout(), 30000);
    let h = HandshakeResult::new("1.2.3".to_string(), 42);
    assert_eq!(h.protocol_version, PROTOCOL_VERSION);
    assert_eq!(h.protocol_version, 1);
    assert_eq!(ScreenParams::default_format(), ScreenFormat::Text);
    let st = StatusResult::from_exit(Some(0));
    assert!(st.exited);
    assert_eq!(StatusResult::from_exit(None).exit_code, None);
    assert_eq!(DaemonConfig::new("/tmp/x.sock".to_string()).socket_path, "/tmp/x.sock");
}

#[test]
fn client_ids_and_reply_checks() {
    let mut ids = RequestIds::new();
    assert_eq!(ids.take(), 1);
    assert_eq!(ids.take(), 2);
    let ok = Response::ok(3, serde_json::Value::from("x"));
    assert_eq!(reply_outcome(3, ok).unwrap(), Some(serde_json::Value::from("x")));
    match reply_outcome(4, Response::ok_empty(5)) {
        Err(TermwrightError::Protocol(m)) => assert_eq!(m, "mismatched response id: expected 4 got 5"),
        other => panic!("unexpected {:?}", other),
    }
    let err = Response::err(6, "error".to_string(), "boom".to_string());
    match reply_outcome(6, err) {
        Err(TermwrightError::Protocol(m)) => assert_eq!(m, "error: boom"),
        other => panic!("unexpected {:?}", other),
    }
    assert_eq!(reply_outcome(7, Response::ok_empty(7)).unwrap(), None);
}

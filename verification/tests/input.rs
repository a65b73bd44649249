use termweb_client::client::{
    forward_mouse, key_event_step, key_input_step, mouse_event_step, resize_message, url_key_cmd,
    Outgoing,
};
use termweb_client::display::Mode;
use termweb_client::input::{
    key_to_modifiers, parse_key, parse_mouse, InputEvent, KeyInput, MouseAction, MouseButtonType,
    MouseInput, TermButton, TermKeyCode, TermKeyEvent, TermKeyKind, TermMouseEvent, TermMouseKind,
    ALT, CONTROL, SHIFT,
};
use termweb_client::json::{JsonNumber, JsonValue};
use termweb_client::protocol::types;

fn key(code: TermKeyCode, modifiers: u8) -> TermKeyEvent {
    TermKeyEvent { code, modifiers, kind: TermKeyKind::Press }
}

fn key_input(code: TermKeyCode, modifiers: u8) -> KeyInput {
    match parse_key(&key(code, modifiers)) {
        InputEvent::Key(k) => k,
        other => panic!("not a key: {other:?}"),
    }
}

fn commands(out: &[Outgoing]) -> Vec<String> {
    out.iter()
        .map(|o| match o {
            Outgoing::Command(c) => c.clone(),
            Outgoing::Forward(m) => format!("ws:{}", m.msg_type),
        })
        .collect()
}

fn as_int(v: &JsonValue) -> i64 {
    match v {
        JsonValue::Number(JsonNumber::PosInt(n)) => *n as i64,
        JsonValue::Number(JsonNumber::NegInt(n)) => *n,
        other => panic!("not an integer: {other:?}"),
    }
}

#[test]
fn characters_keep_their_case_unless_control_is_held() {
    let k = key_input(TermKeyCode::Char('A'), SHIFT);
    assert_eq!(k.key, "A");
    assert!(k.shift && !k.ctrl && !k.alt && !k.is_special);
    let k = key_input(TermKeyCode::Char('L'), CONTROL);
    assert_eq!(k.key, "l");
    assert!(k.ctrl);
    let k = key_input(TermKeyCode::Char('X'), ALT);
    assert_eq!(k.key, "X");
    assert!(k.alt);
}

#[test]
fn special_keys_have_browser_names() {
    let cases = [
        (TermKeyCode::Enter, "Enter"),
        (TermKeyCode::Tab, "Tab"),
        (TermKeyCode::Backspace, "Backspace"),
        (TermKeyCode::Esc, "Escape"),
        (TermKeyCode::Delete, "Delete"),
        (TermKeyCode::Home, "Home"),
        (TermKeyCode::End, "End"),
        (TermKeyCode::PageUp, "PageUp"),
        (TermKeyCode::PageDown, "PageDown"),
        (TermKeyCode::Up, "ArrowUp"),
        (TermKeyCode::Down, "ArrowDown"),
        (TermKeyCode::Left, "ArrowLeft"),
        (TermKeyCode::Right, "ArrowRight"),
        (TermKeyCode::F(5), "F5"),
        (TermKeyCode::F(12), "F12"),
        (TermKeyCode::Insert, "Insert"),
        (TermKeyCode::Null, "Unidentified"),
        (TermKeyCode::CapsLock, "Unidentified"),
        (TermKeyCode::Media, "Unidentified"),
    ];
    for (code, name) in cases {
        let k = key_input(code, 0);
        assert_eq!(k.key, name);
        assert!(k.is_special);
    }
}

#[test]
fn modifiers_are_sent_without_meta() {
    let k = key_input(TermKeyCode::Enter, CONTROL | SHIFT);
    let m = key_to_modifiers(&k);
    assert!(m.ctrl && m.shift && !m.alt && !m.meta);
}

#[test]
fn mouse_events_map_to_actions() {
    let ev = |kind| TermMouseEvent { kind, column: 7, row: 9, modifiers: 0 };
    let cases = [
        (TermMouseKind::Down(TermButton::Left), MouseAction::Click, MouseButtonType::Left),
        (TermMouseKind::Up(TermButton::Right), MouseAction::Release, MouseButtonType::Right),
        (TermMouseKind::Drag(TermButton::Middle), MouseAction::Drag, MouseButtonType::Middle),
        (TermMouseKind::Moved, MouseAction::Drag, MouseButtonType::NoButton),
        (TermMouseKind::ScrollUp, MouseAction::ScrollUp, MouseButtonType::NoButton),
        (TermMouseKind::ScrollDown, MouseAction::ScrollDown, MouseButtonType::NoButton),
        (TermMouseKind::ScrollLeft, MouseAction::ScrollLeft, MouseButtonType::NoButton),
        (TermMouseKind::ScrollRight, MouseAction::ScrollRight, MouseButtonType::NoButton),
    ];
    for (kind, action, button) in cases {
        match parse_mouse(&ev(kind)) {
            Some(InputEvent::Mouse(m)) => {
                assert_eq!(m, MouseInput { action, button, col: 7, row: 9 });
            }
            other => panic!("unexpected {other:?}"),
        }
    }
}

#[test]
fn button_names() {
    assert_eq!(MouseButtonType::Left.to_string(), "left");
    assert_eq!(MouseButtonType::Middle.to_string(), "middle");
    assert_eq!(MouseButtonType::Right.to_string(), "right");
    assert_eq!(MouseButtonType::NoButton.to_string(), "left");
}

#[test]
fn clicks_and_scrolls_are_forwarded() {
    let click = forward_mouse(&MouseInput {
        action: MouseAction::Click,
        button: MouseButtonType::Right,
        col: 3,
        row: 4,
    });
    assert_eq!(click.msg_type, types::CLICK);
    assert_eq!(as_int(click.payload.get("x").unwrap()), 3);
    assert_eq!(as_int(click.payload.get("y").unwrap()), 4);
    assert_eq!(click.payload.get("button").unwrap().as_str(), Some("right"));
    let drag = forward_mouse(&MouseInput {
        action: MouseAction::Drag,
        button: MouseButtonType::NoButton,
        col: 1,
        row: 2,
    });
    assert_eq!(drag.msg_type, types::MOUSE_MOVE);
    assert!(drag.payload.get("button").is_none());
    let up = forward_mouse(&MouseInput {
        action: MouseAction::ScrollUp,
        button: MouseButtonType::NoButton,
        col: 0,
        row: 0,
    });
    assert_eq!(up.msg_type, types::SCROLL);
    assert_eq!(as_int(up.payload.get("delta_x").unwrap()), 0);
    assert_eq!(as_int(up.payload.get("delta_y").unwrap()), -3);
    let left = forward_mouse(&MouseInput {
        action: MouseAction::ScrollLeft,
        button: MouseButtonType::NoButton,
        col: 0,
        row: 0,
    });
    assert_eq!(as_int(left.payload.get("delta_x").unwrap()), -3);
    let out = mouse_event_step(&TermMouseEvent {
        kind: TermMouseKind::Up(TermButton::Left),
        column: 5,
        row: 6,
        modifiers: 0,
    });
    assert_eq!(commands(&out), vec!["ws:mouseUp".to_string()]);
}

#[test]
fn resize_is_forwarded() {
    let m = resize_message(120, 40);
    assert_eq!(m.msg_type, types::RESIZE);
    assert_eq!(as_int(m.payload.get("width").unwrap()), 120);
    assert_eq!(as_int(m.payload.get("height").unwrap()), 40);
}

#[test]
fn url_key_commands() {
    assert_eq!(url_key_cmd(&key_input(TermKeyCode::Enter, 0)), "url_key:Enter");
    assert_eq!(url_key_cmd(&key_input(TermKeyCode::Char('a'), 0)), "url_key:a");
    assert_eq!(url_key_cmd(&key_input(TermKeyCode::Char('a'), CONTROL)), "");
    assert_eq!(url_key_cmd(&key_input(TermKeyCode::Char('a'), ALT)), "");
}

#[test]
fn control_c_quits() {
    let step = key_input_step(Mode::Normal, &key_input(TermKeyCode::Char('c'), CONTROL));
    assert!(step.quit);
    assert!(step.out.is_empty());
}

#[test]
fn control_l_opens_address_bar_and_enter_closes_it() {
    let step = key_input_step(Mode::Normal, &key_input(TermKeyCode::Char('l'), CONTROL));
    assert!(!step.quit);
    assert_eq!(step.mode, Mode::UrlInput { cursor: 0 });
    assert_eq!(commands(&step.out), vec!["mode:url".to_string()]);
    let step = key_input_step(step.mode, &key_input(TermKeyCode::Char('x'), 0));
    assert_eq!(commands(&step.out), vec!["url_key:x".to_string()]);
    let step = key_input_step(step.mode, &key_input(TermKeyCode::Enter, 0));
    assert_eq!(step.mode, Mode::Normal);
    assert_eq!(commands(&step.out), vec!["url_key:Enter".to_string(), "mode:normal".to_string()]);
}

#[test]
fn find_mode_keys() {
    let step = key_input_step(Mode::Normal, &key_input(TermKeyCode::Char('f'), CONTROL));
    assert_eq!(step.mode, Mode::FindActive { cursor: 0 });
    assert_eq!(commands(&step.out), vec!["mode:find".to_string()]);
    let m = step.mode;
    let typed = key_input_step(m, &key_input(TermKeyCode::Char('q'), 0));
    assert_eq!(commands(&typed.out), vec!["find_key:q".to_string()]);
    let ctrl = key_input_step(m, &key_input(TermKeyCode::Char('q'), ALT));
    assert!(ctrl.out.is_empty());
    let back = key_input_step(m, &key_input(TermKeyCode::Backspace, 0));
    assert_eq!(commands(&back.out), vec!["find_key:Backspace".to_string()]);
    let esc = key_input_step(m, &key_input(TermKeyCode::Esc, 0));
    assert_eq!(esc.mode, Mode::Normal);
    assert_eq!(commands(&esc.out), vec!["mode:normal".to_string(), "find_key:clear".to_string()]);
    let enter = key_input_step(m, &key_input(TermKeyCode::Enter, 0));
    assert_eq!(enter.mode, m);
    assert_eq!(commands(&enter.out), vec!["find_key:Enter".to_string()]);
}

#[test]
fn normal_mode_shortcuts() {
    let cases = [
        ('r', types::REQUEST_SCREENSHOT),
        ('b', types::GO_BACK),
        ('n', types::GO_FORWARD),
    ];
    for (c, t) in cases {
        let step = key_input_step(Mode::Normal, &key_input(TermKeyCode::Char(c), CONTROL));
        assert_eq!(commands(&step.out), vec![format!("ws:{t}")]);
        assert_eq!(step.mode, Mode::Normal);
    }
    // control-W and control-T stay on the client
    for c in ['w', 't', 'W'] {
        let step = key_input_step(Mode::Normal, &key_input(TermKeyCode::Char(c), CONTROL));
        assert!(step.out.is_empty());
        assert_eq!(step.mode, Mode::Normal);
        assert!(!step.quit);
    }
    let tab = key_input_step(Mode::Normal, &key_input(TermKeyCode::Char('3'), CONTROL));
    assert_eq!(commands(&tab.out), vec!["switch_to_tab_idx:3".to_string()]);
    let back = key_input_step(Mode::Normal, &key_input(TermKeyCode::Char('h'), ALT));
    assert_eq!(commands(&back.out), vec![format!("ws:{}", types::GO_BACK)]);
    let fwd = key_input_step(Mode::Normal, &key_input(TermKeyCode::Char('l'), ALT));
    assert_eq!(commands(&fwd.out), vec![format!("ws:{}", types::GO_FORWARD)]);
}

#[test]
fn normal_mode_keys_reach_the_page() {
    let typed = key_input_step(Mode::Normal, &key_input(TermKeyCode::Char('z'), 0));
    match &typed.out[0] {
        Outgoing::Forward(m) => {
            assert_eq!(m.msg_type, types::TYPE);
            assert_eq!(m.payload.get("text").unwrap().as_str(), Some("z"));
        }
        other => panic!("unexpected {other:?}"),
    }
    let enter = key_input_step(Mode::Normal, &key_input(TermKeyCode::Enter, SHIFT));
    match &enter.out[0] {
        Outgoing::Forward(m) => {
            assert_eq!(m.msg_type, types::KEY_PRESS);
            assert_eq!(m.payload.get("key").unwrap().as_str(), Some("Enter"));
            let mods = m.payload.get("modifiers").unwrap();
            assert_eq!(mods.get("shift").unwrap().as_bool(), Some(true));
            assert!(mods.get("ctrl").is_none());
            assert!(mods.get("meta").is_none());
        }
        other => panic!("unexpected {other:?}"),
    }
    let ctrl_x = key_input_step(Mode::Normal, &key_input(TermKeyCode::Char('x'), CONTROL));
    match &ctrl_x.out[0] {
        Outgoing::Forward(m) => {
            assert_eq!(m.msg_type, types::KEY_PRESS);
            let mods = m.payload.get("modifiers").unwrap();
            assert_eq!(mods.get("ctrl").unwrap().as_bool(), Some(true));
        }
        other => panic!("unexpected {other:?}"),
    }
}

#[test]
fn only_key_presses_count() {
    let release = TermKeyEvent {
        code: TermKeyCode::Char('a'),
        modifiers: 0,
        kind: TermKeyKind::Release,
    };
    assert!(key_event_step(Mode::Normal, &release).is_none());
    let repeat = TermKeyEvent { kind: TermKeyKind::Repeat, ..release };
    assert!(key_event_step(Mode::Normal, &repeat).is_none());
    let press = key_event_step(Mode::UrlInput { cursor: 0 }, &key(TermKeyCode::Esc, 0)).unwrap();
    assert_eq!(press.mode, Mode::Normal);
    assert_eq!(commands(&press.out), vec!["url_key:Escape".to_string(), "mode:normal".to_string()]);
}

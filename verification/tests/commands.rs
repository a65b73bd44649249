use termweb_client::commands::{command_runs, handle_command, tabs_json, ToServer};
use termweb_client::display::{DisplayState, Mode, TabInfo};
use termweb_client::json::JsonValue;
use termweb_client::protocol::types;

fn state() -> DisplayState {
    let mut s = DisplayState::new(80, 24, false);
    s.connected = true;
    s
}

fn run(s: &mut DisplayState, cmd: &str) -> Option<termweb_client::protocol::Message> {
    match handle_command(s, cmd, None) {
        Some(ToServer::Message(m)) => Some(m),
        Some(ToServer::Json(j)) => panic!("unexpected forwarded text {j}"),
        None => None,
    }
}

fn member<'a>(v: &'a JsonValue, key: &str) -> Option<&'a str> {
    v.get(key).and_then(|m| m.as_str())
}

fn tab(id: &str, active: bool) -> TabInfo {
    TabInfo { id: id.to_string(), url: format!("https://{id}.test"), title: id.to_string(), active }
}

#[test]
fn url_navigate_sets_url_and_leaves_editing() {
    let mut s = state();
    s.mode = Mode::UrlInput { cursor: 2 };
    s.url_buffer = "ab".to_string();
    assert!(run(&mut s, "url_navigate:https://example.com").is_none());
    assert_eq!(s.url, "https://example.com");
    assert_eq!(s.mode, Mode::Normal);
    assert_eq!(s.url_buffer, "");
}

#[test]
fn url_set_replaces_address_and_buffer() {
    let mut s = state();
    assert!(run(&mut s, "url_set:https://a.test/x").is_none());
    assert_eq!(s.url, "https://a.test/x");
    assert_eq!(s.url_buffer, "https://a.test/x");
    assert_eq!(s.mode, Mode::Normal);
}

#[test]
fn mode_url_copies_address_and_puts_cursor_at_end() {
    let mut s = state();
    s.url = "https://h\u{e9}llo.test".to_string();
    run(&mut s, "mode:url");
    assert_eq!(s.url_buffer, s.url);
    // the cursor counts bytes: an accented letter takes two
    assert_eq!(s.mode, Mode::UrlInput { cursor: 19 });
    run(&mut s, "mode:normal");
    assert_eq!(s.mode, Mode::Normal);
}

#[test]
fn typing_in_the_address_bar_inserts_at_cursor() {
    let mut s = state();
    s.url = "ac".to_string();
    run(&mut s, "mode:url");
    run(&mut s, "url_key:Left");
    assert_eq!(s.mode, Mode::UrlInput { cursor: 1 });
    run(&mut s, "url_key:b");
    assert_eq!(s.url_buffer, "abc");
    assert_eq!(s.mode, Mode::UrlInput { cursor: 2 });
}

#[test]
fn backspace_undoes_typing_in_address_bar() {
    let mut s = state();
    s.url = "abc".to_string();
    run(&mut s, "mode:url");
    run(&mut s, "url_key:Home");
    run(&mut s, "url_key:Right");
    run(&mut s, "url_key:x");
    assert_eq!(s.url_buffer, "axbc");
    run(&mut s, "url_key:Backspace");
    assert_eq!(s.url_buffer, "abc");
    assert_eq!(s.mode, Mode::UrlInput { cursor: 1 });
}

#[test]
fn left_then_right_returns_cursor() {
    let mut s = state();
    s.url = "abc".to_string();
    run(&mut s, "mode:url");
    run(&mut s, "url_key:Left");
    run(&mut s, "url_key:Right");
    assert_eq!(s.mode, Mode::UrlInput { cursor: 3 });
    // at the ends the moves stop
    run(&mut s, "url_key:Right");
    assert_eq!(s.mode, Mode::UrlInput { cursor: 3 });
    run(&mut s, "url_key:Home");
    run(&mut s, "url_key:Left");
    assert_eq!(s.mode, Mode::UrlInput { cursor: 0 });
    run(&mut s, "url_key:End");
    assert_eq!(s.mode, Mode::UrlInput { cursor: 3 });
}

#[test]
fn delete_removes_character_under_cursor() {
    let mut s = state();
    s.url = "abc".to_string();
    run(&mut s, "mode:url");
    run(&mut s, "url_key:Home");
    run(&mut s, "url_key:Delete");
    assert_eq!(s.url_buffer, "bc");
    assert_eq!(s.mode, Mode::UrlInput { cursor: 0 });
    run(&mut s, "url_key:End");
    run(&mut s, "url_key:Delete");
    assert_eq!(s.url_buffer, "bc");
}

#[test]
fn enter_without_scheme_goes_over_https() {
    let mut s = state();
    run(&mut s, "mode:url");
    for c in "example.com".chars() {
        run(&mut s, &format!("url_key:{c}"));
    }
    let msg = run(&mut s, "url_key:Enter").expect("navigate message");
    assert_eq!(msg.msg_type, types::NAVIGATE);
    assert_eq!(member(&msg.payload, "url"), Some("https://example.com"));
    assert!(msg.payload.get("tab_id").is_none());
    assert!(msg.timestamp.is_some());
    assert_eq!(s.url, "https://example.com");
    assert_eq!(s.url_buffer, "");
    assert_eq!(s.mode, Mode::Normal);
}

#[test]
fn enter_with_scheme_keeps_address() {
    let mut s = state();
    s.url = "http://plain.test".to_string();
    run(&mut s, "mode:url");
    let msg = run(&mut s, "url_key:Enter").unwrap();
    assert_eq!(member(&msg.payload, "url"), Some("http://plain.test"));
    assert_eq!(s.url, "http://plain.test");
}

#[test]
fn escape_closes_address_bar_without_navigating() {
    let mut s = state();
    s.url = "https://kept.test".to_string();
    run(&mut s, "mode:url");
    run(&mut s, "url_key:z");
    assert!(run(&mut s, "url_key:Escape").is_none());
    assert_eq!(s.url, "https://kept.test");
    assert_eq!(s.url_buffer, "");
    assert_eq!(s.mode, Mode::Normal);
}

#[test]
fn arrow_key_names_do_not_edit_the_address() {
    let mut s = state();
    s.url = "ab".to_string();
    run(&mut s, "mode:url");
    run(&mut s, "url_key:ArrowLeft");
    assert_eq!(s.mode, Mode::UrlInput { cursor: 2 });
    assert_eq!(s.url_buffer, "ab");
    // key names are never typed, and keys typed outside the editor are dropped
    run(&mut s, "url_key:Tab");
    assert_eq!(s.url_buffer, "ab");
    run(&mut s, "mode:normal");
    run(&mut s, "url_key:q");
    assert_eq!(s.url_buffer, "ab");
}

#[test]
fn find_typing_and_enter_searches() {
    let mut s = state();
    run(&mut s, "mode:find");
    assert_eq!(s.mode, Mode::FindActive { cursor: 0 });
    for c in "needle".chars() {
        run(&mut s, &format!("find_key:{c}"));
    }
    assert_eq!(s.find_buffer, "needle");
    let msg = run(&mut s, "find_key:Enter").expect("find message");
    assert_eq!(msg.msg_type, types::FIND_IN_PAGE);
    assert_eq!(member(&msg.payload, "text"), Some("needle"));
    assert_eq!(s.mode, Mode::Normal);
    assert_eq!(s.find_buffer, "");
}

#[test]
fn find_enter_with_empty_text_sends_nothing() {
    let mut s = state();
    run(&mut s, "mode:find");
    assert!(run(&mut s, "find_key:Enter").is_none());
    assert_eq!(s.mode, Mode::Normal);
}

#[test]
fn find_backspace_delete_and_clear() {
    let mut s = state();
    run(&mut s, "mode:find");
    run(&mut s, "find_key:a");
    run(&mut s, "find_key:b");
    run(&mut s, "find_key:Backspace");
    assert_eq!(s.find_buffer, "a");
    assert_eq!(s.mode, Mode::FindActive { cursor: 1 });
    run(&mut s, "find_key:Delete");
    assert_eq!(s.find_buffer, "a");
    run(&mut s, "find_key:clear");
    assert_eq!(s.find_buffer, "");
    // the cursor is left where it was
    assert_eq!(s.mode, Mode::FindActive { cursor: 1 });
}

#[test]
fn switch_to_tab_by_number() {
    let mut s = state();
    s.tabs = vec![tab("one", false), tab("two", true)];
    let msg = run(&mut s, "switch_to_tab_idx:2").expect("switch message");
    assert_eq!(msg.msg_type, types::SWITCH_TAB);
    assert_eq!(member(&msg.payload, "tab_id"), Some("two"));
    assert!(run(&mut s, "switch_to_tab_idx:+1").is_some());
    assert!(run(&mut s, "switch_to_tab_idx:0").is_none());
    assert!(run(&mut s, "switch_to_tab_idx:3").is_none());
    assert!(run(&mut s, "switch_to_tab_idx:x").is_none());
    assert!(run(&mut s, "switch_to_tab_idx:99999999999999999999999").is_none());
}

#[test]
fn loading_status_and_errors() {
    let mut s = state();
    run(&mut s, "loading:true");
    assert!(s.loading);
    run(&mut s, "loading:yes");
    assert!(!s.loading);
    run(&mut s, "status:Ready");
    assert_eq!(s.status, "Ready");
    run(&mut s, "error_msg:boom");
    assert_eq!(s.status, "\u{26a0} boom");
    assert_eq!(s.error_log, vec!["boom".to_string()]);
}

#[test]
fn error_log_keeps_the_ten_newest() {
    let mut s = state();
    for i in 0..15 {
        run(&mut s, &format!("error_msg:e{i}"));
    }
    assert_eq!(s.error_log.len(), 10);
    assert_eq!(s.error_log.first().unwrap(), "e5");
    assert_eq!(s.error_log.last().unwrap(), "e14");
}

#[test]
fn tabs_command_takes_parsed_list() {
    let mut s = state();
    let cmd = "tabs:[{\"id\":\"t1\"}]";
    assert_eq!(tabs_json(cmd), Some("[{\"id\":\"t1\"}]"));
    assert_eq!(tabs_json("status:x"), None);
    handle_command(&mut s, cmd, Some(vec![tab("t1", true)]));
    assert_eq!(s.tabs.len(), 1);
    assert_eq!(s.tabs[0].id, "t1");
    // a tab list that did not parse changes nothing
    handle_command(&mut s, "tabs:not json", None);
    assert_eq!(s.tabs.len(), 1);
}

#[test]
fn forwarded_input_is_passed_on_and_unknown_commands_do_nothing() {
    let mut s = state();
    s.status = "kept".to_string();
    let json = "{\"type\":\"click\",\"payload\":{\"x\":1}}";
    match handle_command(&mut s, &format!("ws:{json}"), None) {
        Some(ToServer::Json(j)) => assert_eq!(j, json),
        other => panic!("expected the forwarded text, got {other:?}"),
    }
    match handle_command(&mut s, "ws:", None) {
        Some(ToServer::Json(j)) => assert_eq!(j, ""),
        other => panic!("expected the forwarded text, got {other:?}"),
    }
    assert!(run(&mut s, "").is_none());
    assert_eq!(s.status, "kept");
    assert_eq!(s.mode, Mode::Normal);
}

#[test]
fn edits_inside_a_character_are_refused() {
    let mut s = state();
    s.url_buffer = "\u{e9}t\u{e9}".to_string();
    s.mode = Mode::UrlInput { cursor: 1 };
    assert!(!command_runs(&s, "url_key:x"));
    assert!(!command_runs(&s, "url_key:Delete"));
    assert!(command_runs(&s, "url_key:Left"));
    assert!(command_runs(&s, "url_set:x"));
    s.mode = Mode::UrlInput { cursor: 2 };
    assert!(!command_runs(&s, "url_key:Backspace"));
    assert!(command_runs(&s, "url_key:Delete"));
    s.mode = Mode::UrlInput { cursor: 3 };
    assert!(command_runs(&s, "url_key:Backspace"));
    run(&mut s, "url_key:Backspace");
    assert_eq!(s.url_buffer, "\u{e9}\u{e9}");
    assert_eq!(s.mode, Mode::UrlInput { cursor: 2 });
    s.find_buffer = "\u{e9}".to_string();
    s.mode = Mode::FindActive { cursor: 1 };
    assert!(!command_runs(&s, "find_key:a"));
    assert!(command_runs(&s, "find_key:clear"));
    assert!(command_runs(&s, "loading:true"));
}

#[test]
fn editing_keeps_the_cursor_within_the_address() {
    let mut s = state();
    s.url = "ab".to_string();
    run(&mut s, "mode:url");
    for cmd in ["url_key:Right", "url_key:x", "url_key:Delete", "url_key:Home", "url_key:Left",
                "url_key:Delete", "url_key:Delete", "url_key:Delete", "url_key:End", "url_key:Backspace"] {
        assert!(command_runs(&s, cmd));
        run(&mut s, cmd);
        match s.mode {
            Mode::UrlInput { cursor } => assert!(cursor <= s.url_buffer.len()),
            _ => panic!("the address bar closed"),
        }
    }
    assert_eq!(s.url_buffer, "");
}

#[test]
fn a_new_address_can_leave_the_cursor_past_the_text() {
    let mut s = state();
    s.url_buffer = "example.com".to_string();
    s.mode = Mode::UrlInput { cursor: 10 };
    run(&mut s, "url_set:a.b");
    assert_eq!(s.url_buffer, "a.b");
    assert_eq!(s.mode, Mode::UrlInput { cursor: 10 });
    assert!(!command_runs(&s, "url_key:Backspace"));
    assert!(!command_runs(&s, "url_key:z"));
    assert!(command_runs(&s, "url_key:End"));
    run(&mut s, "url_key:End");
    assert_eq!(s.mode, Mode::UrlInput { cursor: 3 });
}

#[test]
fn edits_keep_the_cursor_on_a_character_boundary() {
    let mut s = state();
    s.url = "h\u{e9}".to_string();
    run(&mut s, "mode:url");
    assert_eq!(s.mode, Mode::UrlInput { cursor: 3 });
    for cmd in ["url_key:x", "url_key:Backspace", "url_key:Home", "url_key:Delete", "url_key:y", "url_key:End"] {
        run(&mut s, cmd);
        if let Mode::UrlInput { cursor } = s.mode {
            assert!(s.url_buffer.is_char_boundary(cursor));
        }
    }
    assert_eq!(s.url_buffer, "y\u{e9}");
    // a one-byte move steps into a two-byte character
    run(&mut s, "url_key:Left");
    assert_eq!(s.mode, Mode::UrlInput { cursor: 2 });
    assert!(!s.url_buffer.is_char_boundary(2));
}

#[test]
fn one_byte_moves_over_one_byte_characters_stay_on_a_boundary() {
    let mut s = state();
    s.url = "a\u{e9}b".to_string();
    run(&mut s, "mode:url");
    run(&mut s, "url_key:Home");
    run(&mut s, "url_key:Right");
    assert_eq!(s.mode, Mode::UrlInput { cursor: 1 });
    assert!(s.url_buffer.is_char_boundary(1));
    run(&mut s, "url_key:End");
    run(&mut s, "url_key:Left");
    assert_eq!(s.mode, Mode::UrlInput { cursor: 3 });
    assert!(s.url_buffer.is_char_boundary(3));
}

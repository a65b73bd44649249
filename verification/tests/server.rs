use termweb_client::client::{
    frame_from_decoded, handle_server_message, next_reconnect, ws_event_action, ServerAction,
    WsAction, WsEvent, CONNECT_TIMEOUT_SECS, FRAME_INTERVAL_MILLIS, INITIAL_RECONNECT_SECS,
    INPUT_POLL_MILLIS, MAX_RECONNECT_SECS, PING_INTERVAL_SECS,
};
use termweb_client::commands::handle_command;
use termweb_client::display::DisplayState;
use termweb_client::json::JsonValue;
use termweb_client::protocol::{types, Message};

fn obj(members: Vec<(&str, JsonValue)>) -> JsonValue {
    JsonValue::Object(members.into_iter().map(|(k, v)| (k.to_string(), v)).collect())
}

fn s(v: &str) -> JsonValue {
    JsonValue::Str(v.to_string())
}

fn msg(t: &str, payload: JsonValue) -> Message {
    Message { msg_type: t.to_string(), payload, timestamp: None }
}

fn command_texts(actions: &[ServerAction]) -> Vec<String> {
    actions
        .iter()
        .filter_map(|a| match a {
            ServerAction::Command(c) => Some(c.clone()),
            _ => None,
        })
        .collect()
}

fn tab_json(id: Option<&str>, active: Option<JsonValue>) -> JsonValue {
    let mut m = vec![("url", s("https://x.test")), ("title", s("X"))];
    if let Some(id) = id {
        m.push(("tabId", s(id)));
    }
    if let Some(a) = active {
        m.push(("active", a));
    }
    obj(m)
}

#[test]
fn frames_are_decoded_from_base64() {
    let out = handle_server_message(&msg(types::FRAME, obj(vec![("data", s("aGVsbG8="))])));
    match out.as_slice() {
        [ServerAction::Frame(bytes)] => assert_eq!(bytes.as_slice(), b"hello"),
        other => panic!("unexpected {other:?}"),
    }
    let bad = handle_server_message(&msg(types::FRAME, obj(vec![("data", s("not base64!"))])));
    assert!(bad.is_empty());
    let missing = handle_server_message(&msg(types::FRAME, obj(vec![])));
    assert!(missing.is_empty());
    assert!(frame_from_decoded(None).is_empty());
    assert_eq!(frame_from_decoded(Some(vec![1, 2])).len(), 1);
}

#[test]
fn url_changes_set_the_address() {
    let out = handle_server_message(&msg(types::URL_CHANGED, obj(vec![("url", s("https://n.test"))])));
    assert_eq!(command_texts(&out), vec!["url_set:https://n.test".to_string()]);
    let none = handle_server_message(&msg(types::URL_CHANGED, obj(vec![("url", JsonValue::Null)])));
    assert!(none.is_empty());
}

#[test]
fn loading_state_is_passed_on() {
    let t = handle_server_message(&msg(types::LOADING_STATE, obj(vec![("loading", JsonValue::Bool(true))])));
    assert_eq!(command_texts(&t), vec!["loading:true".to_string()]);
    let f = handle_server_message(&msg(types::LOADING_STATE, obj(vec![("loading", JsonValue::Bool(false))])));
    assert_eq!(command_texts(&f), vec!["loading:false".to_string()]);
    let bad = handle_server_message(&msg(types::LOADING_STATE, obj(vec![("loading", s("yes"))])));
    assert!(bad.is_empty());
}

#[test]
fn tab_lists_keep_complete_tabs() {
    let tabs = JsonValue::Array(vec![
        tab_json(Some("a"), Some(JsonValue::Bool(true))),
        tab_json(None, Some(JsonValue::Bool(true))),
        tab_json(Some("b"), None),
        tab_json(Some("c"), Some(s("yes"))),
        s("junk"),
    ]);
    let out = handle_server_message(&msg(types::TAB_LIST, obj(vec![("tabs", tabs)])));
    match out.as_slice() {
        [ServerAction::Tabs(list)] => {
            assert_eq!(list.len(), 2);
            assert_eq!(list[0].id, "a");
            assert!(list[0].active);
            assert_eq!(list[1].id, "c");
            assert!(!list[1].active);
            assert_eq!(list[1].url, "https://x.test");
            assert_eq!(list[1].title, "X");
        }
        other => panic!("unexpected {other:?}"),
    }
    let empty = handle_server_message(&msg(
        types::TAB_LIST,
        obj(vec![("tabs", JsonValue::Array(vec![tab_json(None, None)]))]),
    ));
    assert!(empty.is_empty());
}

#[test]
fn session_info_gives_address_then_tabs() {
    let out = handle_server_message(&msg(
        types::SESSION_INFO,
        obj(vec![
            ("url", s("https://s.test")),
            ("tabs", JsonValue::Array(vec![tab_json(Some("z"), Some(JsonValue::Bool(false)))])),
        ]),
    ));
    assert_eq!(out.len(), 2);
    assert!(matches!(&out[0], ServerAction::Command(c) if c == "url_set:https://s.test"));
    assert!(matches!(&out[1], ServerAction::Tabs(t) if t.len() == 1 && t[0].id == "z"));
}

#[test]
fn find_results_become_status() {
    let found = handle_server_message(&msg(
        types::FIND_RESULTS,
        obj(vec![("text", s("cat")), ("found", JsonValue::Bool(true))]),
    ));
    assert_eq!(command_texts(&found), vec!["status:Find 'cat' found".to_string()]);
    let missing = handle_server_message(&msg(types::FIND_RESULTS, obj(vec![])));
    assert_eq!(command_texts(&missing), vec!["status:Find '' not found".to_string()]);
}

#[test]
fn errors_and_other_messages() {
    let e = handle_server_message(&msg(types::ERROR, obj(vec![("message", s("oops"))])));
    assert_eq!(command_texts(&e), vec!["error_msg:oops".to_string()]);
    assert!(handle_server_message(&msg(types::PONG, JsonValue::Null)).is_empty());
    assert!(handle_server_message(&msg(types::CONSOLE, obj(vec![("message", s("x"))]))).is_empty());
}

#[test]
fn reconnect_waits_double_up_to_thirty_seconds() {
    let mut delay = 1;
    let mut waits = vec![];
    for _ in 0..7 {
        let (wait, next) = next_reconnect(false, delay);
        waits.push(wait);
        delay = next;
    }
    assert_eq!(waits, vec![1, 2, 4, 8, 16, 30, 30]);
    assert!(waits.iter().all(|w| *w <= MAX_RECONNECT_SECS));
    assert_eq!(next_reconnect(true, 30), (1, 2));
}

#[test]
fn connection_events() {
    assert_eq!(ws_event_action(WsEvent::Text("t".to_string())), WsAction::Dispatch("t".to_string()));
    assert_eq!(ws_event_action(WsEvent::Outgoing("o".to_string())), WsAction::Send("o".to_string()));
    assert_eq!(ws_event_action(WsEvent::OtherFrame), WsAction::Ignore);
    assert_eq!(ws_event_action(WsEvent::Idle), WsAction::Ping);
    assert_eq!(ws_event_action(WsEvent::MainLoopGone), WsAction::Shutdown);
    assert_eq!(ws_event_action(WsEvent::Closed), WsAction::Reconnect);
    assert_eq!(ws_event_action(WsEvent::ReadFailed), WsAction::Reconnect);
    assert_eq!(ws_event_action(WsEvent::WriteFailed), WsAction::Reconnect);
}

#[test]
fn client_timings() {
    assert_eq!(FRAME_INTERVAL_MILLIS, 33);
    assert!(1000 / FRAME_INTERVAL_MILLIS >= 30);
    assert_eq!(INPUT_POLL_MILLIS, 50);
    assert_eq!(CONNECT_TIMEOUT_SECS, 5);
    assert_eq!(PING_INTERVAL_SECS, 15);
    assert_eq!((INITIAL_RECONNECT_SECS, MAX_RECONNECT_SECS), (1, 30));
}

#[test]
fn server_reports_reach_the_display() {
    let mut d = DisplayState::new(80, 24, false);
    let reports = vec![
        msg(types::URL_CHANGED, obj(vec![("url", s("https://news.test/")), ("title", s("N"))])),
        msg(types::LOADING_STATE, obj(vec![("loading", JsonValue::Bool(true))])),
        msg(types::ERROR, obj(vec![("message", s("timeout"))])),
    ];
    for m in &reports {
        for cmd in command_texts(&handle_server_message(m)) {
            assert!(handle_command(&mut d, &cmd, None).is_none());
        }
    }
    assert_eq!(d.url, "https://news.test/");
    assert_eq!(d.url_buffer, "https://news.test/");
    assert!(d.loading);
    assert_eq!(d.error_log, vec!["timeout".to_string()]);
    assert_eq!(d.status, "\u{26a0} timeout");
    let done = msg(types::LOADING_STATE, obj(vec![("loading", JsonValue::Bool(false))]));
    for cmd in command_texts(&handle_server_message(&done)) {
        handle_command(&mut d, &cmd, None);
    }
    assert!(!d.loading);
}

#[test]
fn connection_keeps_message_order() {
    let events = vec![
        WsEvent::Outgoing("a".to_string()),
        WsEvent::Text("x".to_string()),
        WsEvent::Idle,
        WsEvent::Outgoing("b".to_string()),
        WsEvent::OtherFrame,
        WsEvent::Text("y".to_string()),
        WsEvent::Outgoing("c".to_string()),
    ];
    let actions: Vec<WsAction> = events.into_iter().map(ws_event_action).collect();
    let sent: Vec<String> = actions
        .iter()
        .filter_map(|a| match a {
            WsAction::Send(t) => Some(t.clone()),
            _ => None,
        })
        .collect();
    let dispatched: Vec<String> = actions
        .iter()
        .filter_map(|a| match a {
            WsAction::Dispatch(t) => Some(t.clone()),
            _ => None,
        })
        .collect();
    assert_eq!(sent, vec!["a", "b", "c"]);
    assert_eq!(dispatched, vec!["x", "y"]);
    assert!(actions.contains(&WsAction::Ping));
}

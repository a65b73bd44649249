use termweb_client::json::{json_int, json_str, JsonNumber, JsonValue};
use termweb_client::protocol::{
    chrono_now, default_button, is_false, timestamp_from, to_payload, ClickPayload, ErrorPayload, FramePayload,
    KeyModifiers, KeyPressPayload, LoadingStatePayload, Message, NavigatePayload,
    SessionInfoPayload, SetProxyPayload, TabInfo, ViewportInfo,
};

fn obj(members: Vec<(&str, JsonValue)>) -> JsonValue {
    JsonValue::Object(members.into_iter().map(|(k, v)| (k.to_string(), v)).collect())
}

fn s(v: &str) -> JsonValue {
    JsonValue::Str(v.to_string())
}

fn n(v: u64) -> JsonValue {
    JsonValue::Number(JsonNumber::PosInt(v))
}

#[test]
fn navigate_payload_omits_missing_tab() {
    let p = NavigatePayload { url: "https://a.test".to_string(), tab_id: None };
    assert_eq!(to_payload(&p), obj(vec![("url", s("https://a.test"))]));
    let p = NavigatePayload { url: "u".to_string(), tab_id: Some("t9".to_string()) };
    assert_eq!(to_payload(&p), obj(vec![("url", s("u")), ("tab_id", s("t9"))]));
}

#[test]
fn click_payload_members() {
    let p = ClickPayload { x: 10, y: 20, button: default_button(), tab_id: None };
    assert_eq!(to_payload(&p), obj(vec![("x", n(10)), ("y", n(20)), ("button", s("left"))]));
}

#[test]
fn key_modifiers_leave_out_released_keys() {
    let none = KeyModifiers::default();
    assert_eq!(to_payload(&none), obj(vec![]));
    let m = KeyModifiers { alt: true, ctrl: false, shift: true, meta: false };
    assert_eq!(to_payload(&m), obj(vec![("alt", JsonValue::Bool(true)), ("shift", JsonValue::Bool(true))]));
    let p = KeyPressPayload { key: "a".to_string(), modifiers: Some(m), tab_id: None };
    assert_eq!(
        to_payload(&p),
        obj(vec![
            ("key", s("a")),
            ("modifiers", obj(vec![("alt", JsonValue::Bool(true)), ("shift", JsonValue::Bool(true))])),
        ])
    );
    assert!(is_false(&false));
    assert!(!is_false(&true));
}

#[test]
fn server_payloads() {
    let f = FramePayload {
        data: "AAAA".to_string(),
        encoding: "jpeg".to_string(),
        width: 800,
        height: 600,
        tab_id: Some("t".to_string()),
    };
    assert_eq!(
        to_payload(&f),
        obj(vec![
            ("data", s("AAAA")),
            ("encoding", s("jpeg")),
            ("width", n(800)),
            ("height", n(600)),
            ("tab_id", s("t")),
        ])
    );
    let l = LoadingStatePayload { loading: false, tab_id: None };
    assert_eq!(to_payload(&l), obj(vec![("loading", JsonValue::Bool(false))]));
    let e = ErrorPayload { message: "bad".to_string(), tab_id: None };
    assert_eq!(to_payload(&e), obj(vec![("message", s("bad"))]));
    let proxy = SetProxyPayload {
        server: "p:1".to_string(),
        username: None,
        password: Some("SECRET-REDACTED".to_string()),
    };
    assert_eq!(
        to_payload(&proxy),
        obj(vec![("server", s("p:1")), ("password", s("SECRET-REDACTED"))])
    );
}

#[test]
fn session_info_lists_tabs() {
    let p = SessionInfoPayload {
        session_id: "sid".to_string(),
        viewport: ViewportInfo { width: 1, height: 2 },
        tabs: vec![TabInfo {
            tab_id: "a".to_string(),
            url: "u".to_string(),
            title: "t".to_string(),
            active: true,
        }],
        url: "u".to_string(),
    };
    assert_eq!(
        to_payload(&p),
        obj(vec![
            ("session_id", s("sid")),
            ("viewport", obj(vec![("width", n(1)), ("height", n(2))])),
            (
                "tabs",
                JsonValue::Array(vec![obj(vec![
                    ("tab_id", s("a")),
                    ("url", s("u")),
                    ("title", s("t")),
                    ("active", JsonValue::Bool(true)),
                ])]),
            ),
            ("url", s("u")),
        ])
    );
}

#[test]
fn messages_are_stamped_now() {
    let before = chrono_now();
    let m = Message::new("pong", JsonValue::Null);
    assert_eq!(m.msg_type, "pong");
    assert_eq!(m.payload, JsonValue::Null);
    let t = m.timestamp.unwrap();
    assert!(t >= before);
    // a clock after 2020
    assert!(t > 1_577_836_800_000);
}

#[test]
fn json_accessors() {
    let v = obj(vec![("a", s("x")), ("b", JsonValue::Bool(true)), ("c", JsonValue::Array(vec![]))]);
    assert_eq!(v.get("a").and_then(|x| x.as_str()), Some("x"));
    assert_eq!(v.get("b").and_then(|x| x.as_bool()), Some(true));
    assert_eq!(v.get("c").and_then(|x| x.as_array()).map(|a| a.len()), Some(0));
    assert!(v.get("d").is_none());
    assert!(s("x").get("a").is_none());
    assert_eq!(json_int(-5), JsonValue::Number(JsonNumber::NegInt(-5)));
    assert_eq!(json_int(5), n(5));
    assert_eq!(json_str("q".to_string()), s("q"));
}

#[test]
fn clock_readings_become_stamps() {
    assert_eq!(timestamp_from(Some(1_700_000_000_123)), 1_700_000_000_123);
    assert_eq!(timestamp_from(None), 0);
    assert_eq!(timestamp_from(Some(1u128 << 63)), i64::MIN);
    let m = Message::stamped("pong", JsonValue::Null, Some(42));
    assert_eq!(m.msg_type, "pong");
    assert_eq!(m.timestamp, Some(42));
    assert_eq!(Message::stamped("pong", JsonValue::Null, None).timestamp, Some(0));
}

//! The decisions of the client's tasks. The input task turns each terminal
//! event into text commands for the main loop or messages for the server
//! (sent as `ws:` commands); the network task turns each server message into
//! screenshot frames and commands; the connection is retried with a growing
//! delay.
use vstd::prelude::*;
use base64::Engine;

use crate::display::{TabInfo, TabView, Mode, tab_views};
use crate::input::{
    KeyInput, MouseInput, MouseAction, TermKeyEvent, TermKeyKind, TermMouseEvent, InputEvent,
    button_name, key_name, has_modifier, mouse_action_of, parse_key, parse_mouse, key_to_modifiers,
    CONTROL, ALT, SHIFT,
};
use crate::json::{JsonValue, JsonView, json_view, json_views, lemma_json_views_index};
use crate::protocol::{
    Message, ToPayload, KeyPressPayload, TypePayload, ClickPayload, MouseMovePayload,
    MouseUpPayload, ScrollPayload, ResizePayload, u32_json, i32_json, flag_member, pointer_members,
    lemma_json_views_push,
};
use crate::protocol::types;
use crate::text::{byte_len, is_one_byte, str_eq, string_of, append_str, decimal};

verus! {

// ─── Outgoing traffic of the input task ─────────────────────────────────────
/// What the input task sends to the main loop: a command, or a message to
/// forward to the server (sent as `ws:` followed by the message's JSON).
#[derive(Debug)]
pub enum Outgoing {
    Command(String),
    Forward(Message),
}

/// The mathematical form of an outgoing item: a command's text, or a
/// forwarded message's type and payload.
pub enum OutView {
    Command(Seq<char>),
    Forward(Seq<char>, JsonView),
}

pub open spec fn out_view(o: Outgoing) -> OutView {
    match o {
        Outgoing::Command(s) => OutView::Command(s@),
        Outgoing::Forward(m) => OutView::Forward(m.msg_type@, m.payload@),
    }
}

pub open spec fn out_views(v: Seq<Outgoing>) -> Seq<OutView> {
    v.map_values(|o: Outgoing| out_view(o))
}

/// Every forwarded message carries a timestamp.
pub open spec fn all_stamped(v: Seq<Outgoing>) -> bool {
    forall|i: int| 0 <= i < v.len() ==> (#[trigger] v[i] matches Outgoing::Forward(m)
        ==> m.timestamp is Some)
}

/// The mathematical form of a key input.
pub struct KeyView {
    pub key: Seq<char>,
    pub ctrl: bool,
    pub alt: bool,
    pub shift: bool,
    pub is_special: bool,
}

impl View for KeyInput {
    type V = KeyView;

    open spec fn view(&self) -> KeyView {
        KeyView {
            key: self.key@,
            ctrl: self.ctrl,
            alt: self.alt,
            shift: self.shift,
            is_special: self.is_special,
        }
    }
}

fn concat(a: &str, b: &str) -> (r: String)
    ensures
        r@ == a@ + b@,
{
    let mut s = string_of(a);
    append_str(&mut s, b);
    s
}

fn command(a: &str, b: &str) -> (r: Outgoing)
    ensures
        out_view(r) == OutView::Command(a@ + b@),
{
    Outgoing::Command(concat(a, b))
}

fn command_text(a: &str) -> (r: Outgoing)
    ensures
        out_view(r) == OutView::Command(a@),
{
    Outgoing::Command(string_of(a))
}

fn forward(msg_type: &str, payload: JsonValue) -> (r: Outgoing)
    ensures
        out_view(r) == OutView::Forward(msg_type@, payload@),
        r matches Outgoing::Forward(m) && m.timestamp is Some,
{
    Outgoing::Forward(Message::new(msg_type, payload))
}

fn one(o: Outgoing) -> (r: Vec<Outgoing>)
    ensures
        out_views(r@) == seq![out_view(o)],
        all_stamped(r@) <== (o matches Outgoing::Forward(m) ==> m.timestamp is Some),
{
    let mut v = Vec::new();
    v.push(o);
    assert(out_views(v@) =~= seq![out_view(o)]);
    v
}

fn two(a: Outgoing, b: Outgoing) -> (r: Vec<Outgoing>)
    requires
        a is Command,
        b is Command,
    ensures
        out_views(r@) == seq![out_view(a), out_view(b)],
        all_stamped(r@),
{
    let mut v = Vec::new();
    v.push(a);
    v.push(b);
    assert(out_views(v@) =~= seq![out_view(a), out_view(b)]);
    v
}

fn none() -> (r: Vec<Outgoing>)
    ensures
        out_views(r@) == Seq::<OutView>::empty(),
        all_stamped(r@),
{
    let v = Vec::new();
    assert(out_views(v@) =~= Seq::<OutView>::empty());
    v
}

// ─── Keys ───────────────────────────────────────────────────────────────────
/// The command the address-bar editor gets for a key: key names and plain
/// characters go through, characters typed with control or alt are dropped
/// (an empty command).
pub open spec fn url_key_command(k: KeyView) -> Seq<char> {
    if k.is_special {
        "url_key:"@ + k.key
    } else if k.ctrl || k.alt {
        Seq::empty()
    } else {
        "url_key:"@ + k.key
    }
}

/// The address-bar command for a key input.
pub fn url_key_cmd(k: &KeyInput) -> (r: String)
    ensures
        r@ == url_key_command(k@),
{
    if k.is_special {
        concat("url_key:", k.key.as_str())
    } else if k.ctrl || k.alt {
        String::new()
    } else {
        concat("url_key:", k.key.as_str())
    }
}

/// What a key does while the find bar is open: the input mode it switches to
/// (if any) and what it sends.
pub open spec fn find_input_outcome(k: KeyView) -> (Option<Mode>, Seq<OutView>) {
    if k.key == "Enter"@ {
        (None, seq![OutView::Command("find_key:Enter"@)])
    } else if k.key == "Escape"@ {
        (
            Some(Mode::Normal),
            seq![OutView::Command("mode:normal"@), OutView::Command("find_key:clear"@)],
        )
    } else if k.key == "Backspace"@ {
        (None, seq![OutView::Command("find_key:Backspace"@)])
    } else if k.key == "Delete"@ {
        (None, seq![OutView::Command("find_key:Delete"@)])
    } else if !k.ctrl && !k.alt && byte_len(k.key) == 1 && !k.is_special {
        (None, seq![OutView::Command("find_key:"@ + k.key)])
    } else {
        (None, Seq::empty())
    }
}

fn handle_find_input(k: &KeyInput) -> (r: (Option<Mode>, Vec<Outgoing>))
    ensures
        (r.0, out_views(r.1@)) == find_input_outcome(k@),
        all_stamped(r.1@),
{
    let key = k.key.as_str();
    if str_eq(key, "Enter") {
        (None, one(command_text("find_key:Enter")))
    } else if str_eq(key, "Escape") {
        (Some(Mode::Normal), two(command_text("mode:normal"), command_text("find_key:clear")))
    } else if str_eq(key, "Backspace") {
        (None, one(command_text("find_key:Backspace")))
    } else if str_eq(key, "Delete") {
        (None, one(command_text("find_key:Delete")))
    } else if !k.ctrl && !k.alt && is_one_byte(key) && !k.is_special {
        (None, one(command("find_key:", key)))
    } else {
        (None, none())
    }
}

/// The JSON form of a key press: the key, and the modifiers held when given.
pub open spec fn key_press_json(key: Seq<char>, mods: Option<(bool, bool, bool)>) -> JsonView {
    JsonView::Object(
        seq![("key"@, JsonView::Str(key))] + match mods {
            Some((alt, ctrl, shift)) => seq![
                (
                    "modifiers"@,
                    JsonView::Object(
                        flag_member("alt"@, alt) + flag_member("ctrl"@, ctrl) + flag_member(
                            "shift"@,
                            shift,
                        ) + flag_member("meta"@, false),
                    ),
                ),
            ],
            None => Seq::empty(),
        },
    )
}

/// What a key sends to the page when it is no shortcut: a key press (with
/// the modifiers for key names and for characters typed with control or
/// alt), or the character as typed text.
pub open spec fn key_message(k: KeyView) -> OutView {
    if k.is_special || k.ctrl || k.alt {
        OutView::Forward(types::KEY_PRESS@, key_press_json(k.key, Some((k.alt, k.ctrl, k.shift))))
    } else if k.key == "Enter"@ || k.key == "Backspace"@ || k.key == "Tab"@ || k.key == "Escape"@ {
        OutView::Forward(types::KEY_PRESS@, key_press_json(k.key, None))
    } else {
        OutView::Forward(types::TYPE@, JsonView::Object(seq![("text"@, JsonView::Str(k.key))]))
    }
}

/// A key that picks a tab by its number.
pub open spec fn is_tab_digit(key: Seq<char>) -> bool {
    ||| key == "1"@
    ||| key == "2"@
    ||| key == "3"@
    ||| key == "4"@
    ||| key == "5"@
    ||| key == "6"@
    ||| key == "7"@
    ||| key == "8"@
    ||| key == "9"@
}

/// The control-key shortcuts of normal mode: the input mode a shortcut
/// switches to (if any) and what it sends. Control-W and control-T act on
/// the client alone: the address stays shown and nothing goes to the server.
pub open spec fn ctrl_shortcut(key: Seq<char>) -> Option<(Option<Mode>, Seq<OutView>)> {
    if key == "l"@ {
        Some((Some(Mode::UrlInput { cursor: 0 }), seq![OutView::Command("mode:url"@)]))
    } else if key == "r"@ {
        Some((None, seq![OutView::Forward(types::REQUEST_SCREENSHOT@, JsonView::Null)]))
    } else if key == "t"@ || key == "w"@ {
        Some((None, Seq::empty()))
    } else if key == "f"@ {
        Some((Some(Mode::FindActive { cursor: 0 }), seq![OutView::Command("mode:find"@)]))
    } else if key == "b"@ {
        Some((None, seq![OutView::Forward(types::GO_BACK@, JsonView::Null)]))
    } else if key == "n"@ {
        Some((None, seq![OutView::Forward(types::GO_FORWARD@, JsonView::Null)]))
    } else if is_tab_digit(key) {
        Some((None, seq![OutView::Command("switch_to_tab_idx:"@ + key)]))
    } else {
        None
    }
}

/// The alt-key shortcuts of normal mode.
pub open spec fn alt_shortcut(key: Seq<char>) -> Option<OutView> {
    if key == "Left"@ || key == "h"@ {
        Some(OutView::Forward(types::GO_BACK@, JsonView::Null))
    } else if key == "Right"@ || key == "l"@ {
        Some(OutView::Forward(types::GO_FORWARD@, JsonView::Null))
    } else {
        None
    }
}

/// What a key does in normal mode: the input mode it switches to (if any)
/// and what it sends.
pub open spec fn normal_input_outcome(k: KeyView) -> (Option<Mode>, Seq<OutView>) {
    if k.ctrl && ctrl_shortcut(k.key) is Some {
        ctrl_shortcut(k.key).unwrap()
    } else if k.alt && alt_shortcut(k.key) is Some {
        (None, seq![alt_shortcut(k.key).unwrap()])
    } else {
        (None, seq![key_message(k)])
    }
}

fn is_tab_digit_key(key: &str) -> (r: bool)
    ensures
        r == is_tab_digit(key@),
{
    str_eq(key, "1") || str_eq(key, "2") || str_eq(key, "3") || str_eq(key, "4") || str_eq(
        key,
        "5",
    ) || str_eq(key, "6") || str_eq(key, "7") || str_eq(key, "8") || str_eq(key, "9")
}

fn key_press(k: &KeyInput, with_mods: bool) -> (r: JsonValue)
    ensures
        r@ == key_press_json(
            k.key@,
            if with_mods {
                Some((k.alt, k.ctrl, k.shift))
            } else {
                None
            },
        ),
{
    let p = KeyPressPayload {
        key: k.key.clone(),
        modifiers: if with_mods {
            Some(key_to_modifiers(k))
        } else {
            None
        },
        tab_id: None,
    };
    let r = p.to_payload();
    proof {
        let e = Seq::<(Seq<char>, JsonView)>::empty();
        let head = seq![("key"@, JsonView::Str(k.key@))];
        assert(crate::protocol::opt_str_member("tab_id"@, p.tab_id) == e);
        if with_mods {
            let mods = seq![("modifiers"@, p.modifiers.unwrap().payload_view())];
            assert(head + mods + e =~= head + mods);
        } else {
            assert(head + e + e =~= head);
        }
    }
    r
}

fn handle_normal_input(k: &KeyInput) -> (r: (Option<Mode>, Vec<Outgoing>))
    ensures
        (r.0, out_views(r.1@)) == normal_input_outcome(k@),
        all_stamped(r.1@),
{
    let key = k.key.as_str();
    if k.ctrl {
        if str_eq(key, "l") {
            return (Some(Mode::UrlInput { cursor: 0 }), one(command_text("mode:url")));
        } else if str_eq(key, "r") {
            return (None, one(forward(types::REQUEST_SCREENSHOT, JsonValue::Null)));
        } else if str_eq(key, "t") || str_eq(key, "w") {
            return (None, none());
        } else if str_eq(key, "f") {
            return (Some(Mode::FindActive { cursor: 0 }), one(command_text("mode:find")));
        } else if str_eq(key, "b") {
            return (None, one(forward(types::GO_BACK, JsonValue::Null)));
        } else if str_eq(key, "n") {
            return (None, one(forward(types::GO_FORWARD, JsonValue::Null)));
        } else if is_tab_digit_key(key) {
            return (None, one(command("switch_to_tab_idx:", key)));
        }
    }
    if k.alt {
        if str_eq(key, "Left") || str_eq(key, "h") {
            return (None, one(forward(types::GO_BACK, JsonValue::Null)));
        } else if str_eq(key, "Right") || str_eq(key, "l") {
            return (None, one(forward(types::GO_FORWARD, JsonValue::Null)));
        }
    }
    let out = if k.is_special {
        forward(types::KEY_PRESS, key_press(k, true))
    } else if k.ctrl || k.alt {
        forward(types::KEY_PRESS, key_press(k, true))
    } else if str_eq(key, "Enter") || str_eq(key, "Backspace") || str_eq(key, "Tab") || str_eq(
        key,
        "Escape",
    ) {
        forward(types::KEY_PRESS, key_press(k, false))
    } else {
        let p = TypePayload { text: k.key.clone(), tab_id: None };
        let payload = p.to_payload();
        assert(seq![("text"@, JsonView::Str(k.key@))] + Seq::empty() =~= seq![
            ("text"@, JsonView::Str(k.key@)),
        ]);
        forward(types::TYPE, payload)
    };
    (None, one(out))
}

/// What the input task does with a key input while its own record of the
/// input mode is `mode`: whether it quits (control-c), the mode it records
/// next, and what it sends.
pub open spec fn key_input_outcome(mode: Mode, k: KeyView) -> (bool, Mode, Seq<OutView>) {
    if k.ctrl && k.key == "c"@ {
        (true, mode, Seq::empty())
    } else {
        match mode {
            Mode::UrlInput { .. } => {
                let cmd = OutView::Command(url_key_command(k));
                if k.key == "Enter"@ || k.key == "Escape"@ {
                    (false, Mode::Normal, seq![cmd, OutView::Command("mode:normal"@)])
                } else {
                    (false, mode, seq![cmd])
                }
            },
            Mode::FindActive { .. } => {
                let (m, out) = find_input_outcome(k);
                (
                    false,
                    match m {
                        Some(m) => m,
                        None => mode,
                    },
                    out,
                )
            },
            Mode::Normal => {
                let (m, out) = normal_input_outcome(k);
                (
                    false,
                    match m {
                        Some(m) => m,
                        None => mode,
                    },
                    out,
                )
            },
        }
    }
}

/// The input task's response to one key input.
#[derive(Debug)]
pub struct KeyStep {
    /// Control-c: the client shuts down.
    pub quit: bool,
    /// The input mode the task records next.
    pub mode: Mode,
    /// What the task sends, in order.
    pub out: Vec<Outgoing>,
}

/// The input task's response to a key input `k` in input mode `mode`.
pub fn key_input_step(mode: Mode, k: &KeyInput) -> (r: KeyStep)
    ensures
        (r.quit, r.mode, out_views(r.out@)) == key_input_outcome(mode, k@),
        all_stamped(r.out@),
{
    if k.ctrl && str_eq(k.key.as_str(), "c") {
        return KeyStep { quit: true, mode, out: none() };
    }
    match mode {
        Mode::UrlInput { .. } => {
            let cmd = Outgoing::Command(url_key_cmd(k));
            if str_eq(k.key.as_str(), "Enter") || str_eq(k.key.as_str(), "Escape") {
                KeyStep { quit: false, mode: Mode::Normal, out: two(cmd, command_text("mode:normal")) }
            } else {
                KeyStep { quit: false, mode, out: one(cmd) }
            }
        },
        Mode::FindActive { .. } => {
            let (m, out) = handle_find_input(k);
            let next = match m {
                Some(m) => m,
                None => mode,
            };
            KeyStep { quit: false, mode: next, out }
        },
        Mode::Normal => {
            let (m, out) = handle_normal_input(k);
            let next = match m {
                Some(m) => m,
                None => mode,
            };
            KeyStep { quit: false, mode: next, out }
        },
    }
}

/// The key input a terminal key event gives.
pub open spec fn key_view_of(ev: TermKeyEvent) -> KeyView {
    let ctrl = has_modifier(ev.modifiers, CONTROL);
    KeyView {
        key: key_name(ev.code, ctrl).0,
        ctrl,
        alt: has_modifier(ev.modifiers, ALT),
        shift: has_modifier(ev.modifiers, SHIFT),
        is_special: key_name(ev.code, ctrl).1,
    }
}

/// The input task's response to a terminal key event: only key presses count
/// (repeats and releases are skipped, giving `None`).
pub fn key_event_step(mode: Mode, ev: &TermKeyEvent) -> (r: Option<KeyStep>)
    ensures
        ev.kind != TermKeyKind::Press ==> r is None,
        ev.kind == TermKeyKind::Press ==> (r matches Some(step) && (
        step.quit,
        step.mode,
        out_views(step.out@),
        ) == key_input_outcome(mode, key_view_of(*ev)) && all_stamped(step.out@)),
{
    if ev.kind != TermKeyKind::Press {
        return None;
    }
    match parse_key(ev) {
        InputEvent::Key(k) => Some(key_input_step(mode, &k)),
        _ => None,
    }
}

// ─── Mouse and resize ───────────────────────────────────────────────────────
/// The message a mouse input is forwarded as: clicks and releases with their
/// button, drags as moves, scrolls by three lines or columns.
pub open spec fn mouse_message(m: MouseInput) -> (Seq<char>, JsonView) {
    let x = m.col as u32;
    let y = m.row as u32;
    match m.action {
        MouseAction::Click => (
            types::CLICK@,
            JsonView::Object(pointer_members(x, y, button_name(m.button))),
        ),
        MouseAction::Drag => (
            types::MOUSE_MOVE@,
            JsonView::Object(seq![("x"@, u32_json(x)), ("y"@, u32_json(y))]),
        ),
        MouseAction::Release => (
            types::MOUSE_UP@,
            JsonView::Object(pointer_members(x, y, button_name(m.button))),
        ),
        MouseAction::ScrollUp => (types::SCROLL@, scroll_json(0, -3i32)),
        MouseAction::ScrollDown => (types::SCROLL@, scroll_json(0, 3)),
        MouseAction::ScrollLeft => (types::SCROLL@, scroll_json(-3i32, 0)),
        MouseAction::ScrollRight => (types::SCROLL@, scroll_json(3, 0)),
    }
}

pub open spec fn scroll_json(dx: i32, dy: i32) -> JsonView {
    JsonView::Object(seq![("delta_x"@, i32_json(dx)), ("delta_y"@, i32_json(dy))])
}

fn scroll(dx: i32, dy: i32) -> (r: Message)
    ensures
        r.msg_type@ == types::SCROLL@,
        r.payload@ == scroll_json(dx, dy),
        r.timestamp is Some,
{
    let p = ScrollPayload { delta_x: dx, delta_y: dy, tab_id: None };
    let payload = p.to_payload();
    assert(seq![("delta_x"@, i32_json(dx)), ("delta_y"@, i32_json(dy))] + Seq::empty() =~= seq![
        ("delta_x"@, i32_json(dx)),
        ("delta_y"@, i32_json(dy)),
    ]);
    Message::new(types::SCROLL, payload)
}

/// The message a mouse input is forwarded to the server as.
pub fn forward_mouse(input: &MouseInput) -> (r: Message)
    ensures
        (r.msg_type@, r.payload@) == mouse_message(*input),
        r.timestamp is Some,
{
    let (col, row) = (input.col, input.row);
    match input.action {
        MouseAction::Click => {
            let p = ClickPayload {
                x: col as u32,
                y: row as u32,
                button: input.button.to_string(),
                tab_id: None,
            };
            let payload = p.to_payload();
            assert(pointer_members(p.x, p.y, p.button@) + Seq::empty() =~= pointer_members(
                p.x,
                p.y,
                p.button@,
            ));
            Message::new(types::CLICK, payload)
        },
        MouseAction::Drag => {
            let p = MouseMovePayload { x: col as u32, y: row as u32, tab_id: None };
            let payload = p.to_payload();
            assert(seq![("x"@, u32_json(p.x)), ("y"@, u32_json(p.y))] + Seq::empty() =~= seq![
                ("x"@, u32_json(p.x)),
                ("y"@, u32_json(p.y)),
            ]);
            Message::new(types::MOUSE_MOVE, payload)
        },
        MouseAction::Release => {
            let p = MouseUpPayload {
                x: col as u32,
                y: row as u32,
                button: input.button.to_string(),
                tab_id: None,
            };
            let payload = p.to_payload();
            assert(pointer_members(p.x, p.y, p.button@) + Seq::empty() =~= pointer_members(
                p.x,
                p.y,
                p.button@,
            ));
            Message::new(types::MOUSE_UP, payload)
        },
        MouseAction::ScrollUp => scroll(0, -3),
        MouseAction::ScrollDown => scroll(0, 3),
        MouseAction::ScrollLeft => scroll(-3, 0),
        MouseAction::ScrollRight => scroll(3, 0),
    }
}

/// What the input task sends for a terminal mouse event.
pub fn mouse_event_step(ev: &TermMouseEvent) -> (r: Vec<Outgoing>)
    ensures
        out_views(r@) == seq![
            ({
                let (action, button) = mouse_action_of(ev.kind);
                let (t, p) = mouse_message(
                    MouseInput { action, button, col: ev.column, row: ev.row },
                );
                OutView::Forward(t, p)
            }),
        ],
        all_stamped(r@),
{
    match parse_mouse(ev) {
        Some(InputEvent::Mouse(m)) => one(Outgoing::Forward(forward_mouse(&m))),
        _ => none(),
    }
}

/// The message a terminal resize is forwarded as.
pub fn resize_message(width: u16, height: u16) -> (r: Message)
    ensures
        r.msg_type@ == types::RESIZE@,
        r.payload@ == JsonView::Object(
            seq![("width"@, u32_json(width as u32)), ("height"@, u32_json(height as u32))],
        ),
        r.timestamp is Some,
{
    let p = ResizePayload { width: width as u32, height: height as u32 };
    Message::new(types::RESIZE, p.to_payload())
}

// ─── Server messages ────────────────────────────────────────────────────────
/// What a server message makes the network task do: hand a decoded
/// screenshot to the main loop, send it a command, or send it a tab list
/// (as a `tabs:` command carrying the list's JSON).
#[derive(Debug)]
pub enum ServerAction {
    Frame(Vec<u8>),
    Command(String),
    Tabs(Vec<TabInfo>),
}

/// The mathematical form of a server action.
pub enum ActionView {
    Frame(Seq<u8>),
    Command(Seq<char>),
    Tabs(Seq<TabView>),
}

pub open spec fn action_view(a: ServerAction) -> ActionView {
    match a {
        ServerAction::Frame(b) => ActionView::Frame(b@),
        ServerAction::Command(c) => ActionView::Command(c@),
        ServerAction::Tabs(t) => ActionView::Tabs(tab_views(t@)),
    }
}

pub open spec fn action_views(v: Seq<ServerAction>) -> Seq<ActionView> {
    v.map_values(|a: ServerAction| action_view(a))
}

#[verifier::external_type_specification]
#[verifier::external_body]
pub struct ExDecodeError(base64::DecodeError);

/// The bytes that the standard base64 alphabet, with padding, decodes `text`
/// to; `None` for text that is not such base64.
pub uninterp spec fn base64_standard_decode(text: Seq<char>) -> Option<Seq<u8>>;

/// `base64::engine::general_purpose::STANDARD.decode`: decodes base64 text
/// (standard alphabet, canonical padding). The outcome depends on the text
/// alone.
#[verifier::external_body]
fn decode_base64(text: &str) -> (r: Result<Vec<u8>, base64::DecodeError>)
    ensures
        match r {
            Ok(bytes) => base64_standard_decode(text@) == Some(bytes@),
            Err(_) => base64_standard_decode(text@) is None,
        },
{
    base64::engine::general_purpose::STANDARD.decode(text)
}

/// A tab described by a JSON object of the server: `tabId`, `url` and
/// `title` must be strings and `active` must be present; an `active` that is
/// not a boolean counts as false.
pub open spec fn tab_from_json(t: JsonView) -> Option<TabView> {
    match (t.member_str("tabId"@), t.member_str("url"@), t.member_str("title"@), t.member("active"@)) {
        (Some(id), Some(url), Some(title), Some(a)) => Some(
            TabView { id, url, title, active: a.bool_value() == Some(true) },
        ),
        _ => None,
    }
}

/// The tabs described by a JSON array, skipping the items that describe none.
pub open spec fn tabs_from_json(items: Seq<JsonView>) -> Seq<TabView>
    decreases items.len(),
{
    if items.len() == 0 {
        Seq::empty()
    } else {
        let rest = tabs_from_json(items.drop_last());
        match tab_from_json(items.last()) {
            Some(t) => rest.push(t),
            None => rest,
        }
    }
}

fn tab_from_value(t: &JsonValue) -> (r: Option<TabInfo>)
    ensures
        match r {
            Some(tab) => tab_from_json(t@) == Some(tab@),
            None => tab_from_json(t@) is None,
        },
{
    let id = match t.get("tabId") {
        Some(v) => match v.as_str() {
            Some(s) => s,
            None => return None,
        },
        None => return None,
    };
    let url = match t.get("url") {
        Some(v) => match v.as_str() {
            Some(s) => s,
            None => return None,
        },
        None => return None,
    };
    let title = match t.get("title") {
        Some(v) => match v.as_str() {
            Some(s) => s,
            None => return None,
        },
        None => return None,
    };
    let active = match t.get("active") {
        Some(v) => match v.as_bool() {
            Some(b) => b,
            None => false,
        },
        None => return None,
    };
    Some(TabInfo { id: string_of(id), url: string_of(url), title: string_of(title), active })
}

fn tabs_from_array(items: &Vec<JsonValue>) -> (r: Vec<TabInfo>)
    ensures
        tab_views(r@) == tabs_from_json(json_views(items@)),
{
    let ghost views = json_views(items@);
    proof {
        crate::json::lemma_json_views_len(items@);
    }
    let mut r: Vec<TabInfo> = Vec::new();
    let mut i: usize = 0;
    assert(tab_views(r@) =~= tabs_from_json(views.take(0)));
    while i < items.len()
        invariant
            i <= items.len(),
            views == json_views(items@),
            views.len() == items.len(),
            tab_views(r@) == tabs_from_json(views.take(i as int)),
        decreases items.len() - i,
    {
        proof {
            lemma_json_views_index(items@, i as int);
            assert(views.take(i + 1).drop_last() =~= views.take(i as int));
            assert(views.take(i + 1).last() == views[i as int]);
        }
        match tab_from_value(&items[i]) {
            Some(t) => {
                r.push(t);
                assert(tab_views(r@) =~= tabs_from_json(views.take(i as int)).push(t@));
            },
            None => {},
        }
        i = i + 1;
    }
    assert(views.take(i as int) =~= views);
    r
}

/// The `url_set:` command for the `url` member of a payload, if it is a string.
pub open spec fn url_actions(p: JsonView) -> Seq<ActionView> {
    match p.member_str("url"@) {
        Some(u) => seq![ActionView::Command("url_set:"@ + u)],
        None => Seq::empty(),
    }
}

/// The tab list of the `tabs` member of a payload, when it is an array
/// describing at least one tab.
pub open spec fn tab_actions(p: JsonView) -> Seq<ActionView> {
    match p.member("tabs"@) {
        Some(JsonView::Array(items)) => {
            let tabs = tabs_from_json(items);
            if tabs.len() > 0 {
                seq![ActionView::Tabs(tabs)]
            } else {
                Seq::empty()
            }
        },
        _ => Seq::empty(),
    }
}

/// The screenshot a frame's base64 text decodes to, when it decodes.
pub open spec fn frame_actions(decoded: Option<Seq<u8>>) -> Seq<ActionView> {
    match decoded {
        Some(bytes) => seq![ActionView::Frame(bytes)],
        None => Seq::empty(),
    }
}

/// The text shown for a find result.
pub open spec fn find_status(text: Seq<char>, found: bool) -> Seq<char> {
    "status:Find '"@ + text + "' "@ + (if found {
        "found"@
    } else {
        "not found"@
    })
}

/// What the network task does with a server message of type `msg_type` and
/// payload `p`.
pub open spec fn server_actions(msg_type: Seq<char>, p: JsonView) -> Seq<ActionView> {
    if msg_type == types::FRAME@ {
        match p.member_str("data"@) {
            Some(d) => frame_actions(base64_standard_decode(d)),
            None => Seq::empty(),
        }
    } else if msg_type == types::SESSION_INFO@ {
        url_actions(p) + tab_actions(p)
    } else if msg_type == types::URL_CHANGED@ {
        url_actions(p)
    } else if msg_type == types::LOADING_STATE@ {
        match p.member_bool("loading"@) {
            Some(b) => seq![
                ActionView::Command(
                    "loading:"@ + (if b {
                        "true"@
                    } else {
                        "false"@
                    }),
                ),
            ],
            None => Seq::empty(),
        }
    } else if msg_type == types::TAB_LIST@ {
        tab_actions(p)
    } else if msg_type == types::FIND_RESULTS@ {
        let found = p.member_bool("found"@) == Some(true);
        let text = match p.member_str("text"@) {
            Some(t) => t,
            None => ""@,
        };
        seq![ActionView::Command(find_status(text, found))]
    } else if msg_type == types::ERROR@ {
        match p.member_str("message"@) {
            Some(m) => seq![ActionView::Command("error_msg:"@ + m)],
            None => Seq::empty(),
        }
    } else {
        Seq::empty()
    }
}

fn no_actions() -> (r: Vec<ServerAction>)
    ensures
        action_views(r@) == Seq::<ActionView>::empty(),
{
    let r = Vec::new();
    assert(action_views(r@) =~= Seq::<ActionView>::empty());
    r
}

fn one_action(a: ServerAction) -> (r: Vec<ServerAction>)
    ensures
        action_views(r@) == seq![action_view(a)],
{
    let mut r = Vec::new();
    r.push(a);
    assert(action_views(r@) =~= seq![action_view(a)]);
    r
}

/// The action for a frame whose base64 text decoded to `decoded`.
pub fn frame_from_decoded(decoded: Option<Vec<u8>>) -> (r: Vec<ServerAction>)
    ensures
        action_views(r@) == frame_actions(
            match decoded {
                Some(b) => Some(b@),
                None => None,
            },
        ),
{
    match decoded {
        Some(bytes) => one_action(ServerAction::Frame(bytes)),
        None => no_actions(),
    }
}

fn url_set_actions(p: &JsonValue) -> (r: Vec<ServerAction>)
    ensures
        action_views(r@) == url_actions(p@),
{
    match p.get("url") {
        Some(v) => match v.as_str() {
            Some(u) => one_action(ServerAction::Command(concat("url_set:", u))),
            None => no_actions(),
        },
        None => no_actions(),
    }
}

fn tab_list_actions(p: &JsonValue) -> (r: Vec<ServerAction>)
    ensures
        action_views(r@) == tab_actions(p@),
{
    match p.get("tabs") {
        Some(v) => match v.as_array() {
            Some(items) => {
                let tabs = tabs_from_array(items);
                if tabs.len() > 0 {
                    proof {
                        assert(tab_views(tabs@).len() == tabs@.len());
                    }
                    one_action(ServerAction::Tabs(tabs))
                } else {
                    assert(tab_views(tabs@).len() == 0);
                    no_actions()
                }
            },
            None => no_actions(),
        },
        None => no_actions(),
    }
}

/// What the network task does with a message from the server.
pub fn handle_server_message(msg: &Message) -> (r: Vec<ServerAction>)
    ensures
        action_views(r@) == server_actions(msg.msg_type@, msg.payload@),
{
    let t = msg.msg_type.as_str();
    let p = &msg.payload;
    if str_eq(t, types::FRAME) {
        let decoded = match p.get("data") {
            Some(v) => match v.as_str() {
                Some(s) => match decode_base64(s) {
                    Ok(bytes) => Some(bytes),
                    Err(_) => None,
                },
                None => return no_actions(),
            },
            None => return no_actions(),
        };
        frame_from_decoded(decoded)
    } else if str_eq(t, types::SESSION_INFO) {
        let mut r = url_set_actions(p);
        let mut tabs = tab_list_actions(p);
        let ghost a = r@;
        let ghost b = tabs@;
        r.append(&mut tabs);
        assert(action_views(r@) =~= action_views(a) + action_views(b));
        r
    } else if str_eq(t, types::URL_CHANGED) {
        url_set_actions(p)
    } else if str_eq(t, types::LOADING_STATE) {
        match p.get("loading") {
            Some(v) => match v.as_bool() {
                Some(b) => {
                    let c = if b {
                        concat("loading:", "true")
                    } else {
                        concat("loading:", "false")
                    };
                    one_action(ServerAction::Command(c))
                },
                None => no_actions(),
            },
            None => no_actions(),
        }
    } else if str_eq(t, types::TAB_LIST) {
        tab_list_actions(p)
    } else if str_eq(t, types::FIND_RESULTS) {
        let found = match p.get("found") {
            Some(v) => match v.as_bool() {
                Some(b) => b,
                None => false,
            },
            None => false,
        };
        let text = match p.get("text") {
            Some(v) => match v.as_str() {
                Some(s) => s,
                None => "",
            },
            None => "",
        };
        let mut c = concat("status:Find '", text);
        append_str(&mut c, "' ");
        if found {
            append_str(&mut c, "found");
        } else {
            append_str(&mut c, "not found");
        }
        one_action(ServerAction::Command(c))
    } else if str_eq(t, types::ERROR) {
        match p.get("message") {
            Some(v) => match v.as_str() {
                Some(m) => one_action(ServerAction::Command(concat("error_msg:", m))),
                None => no_actions(),
            },
            None => no_actions(),
        }
    } else {
        no_actions()
    }
}

// ─── Connection ─────────────────────────────────────────────────────────────
/// How long the network task waits for a connection to open, in seconds.
pub const CONNECT_TIMEOUT_SECS: u64 = 5;

/// How long an idle connection goes before the network task pings, in seconds.
pub const PING_INTERVAL_SECS: u64 = 15;

/// The first wait before reconnecting, in seconds.
pub const INITIAL_RECONNECT_SECS: u64 = 1;

/// The longest wait before reconnecting, in seconds.
pub const MAX_RECONNECT_SECS: u64 = 30;

/// How often the main loop draws, in milliseconds.
pub const FRAME_INTERVAL_MILLIS: u64 = 33;

/// How long the input task waits for an event before looking again, in milliseconds.
pub const INPUT_POLL_MILLIS: u64 = 50;

/// The wait before the next connection attempt and the wait after it, in
/// seconds, when the last attempt was made after waiting `delay`: a
/// connection that opened starts over from the first wait, and each wait
/// doubles the next up to the longest.
pub open spec fn reconnect_plan(opened: bool, delay: u64) -> (u64, u64) {
    let wait = if opened {
        INITIAL_RECONNECT_SECS
    } else {
        delay
    };
    let doubled = 2 * wait;
    (wait, if doubled < MAX_RECONNECT_SECS {
        doubled as u64
    } else {
        MAX_RECONNECT_SECS
    })
}

/// The network task's waits after a connection attempt ends: how long to
/// wait now, and the delay to use after the next attempt.
pub fn next_reconnect(opened: bool, delay: u64) -> (r: (u64, u64))
    requires
        delay <= u64::MAX / 2,
    ensures
        r == reconnect_plan(opened, delay),
{
    let wait = if opened {
        INITIAL_RECONNECT_SECS
    } else {
        delay
    };
    let doubled = wait * 2;
    (wait, if doubled < MAX_RECONNECT_SECS {
        doubled
    } else {
        MAX_RECONNECT_SECS
    })
}

/// What the network task sees while a connection is open.
#[derive(Debug)]
pub enum WsEvent {
    /// A text message from the server.
    Text(String),
    /// Any other frame from the server (binary, ping, pong).
    OtherFrame,
    /// The server closed the connection, or the stream ended.
    Closed,
    /// Reading from the connection failed.
    ReadFailed,
    /// The main loop has a message for the server.
    Outgoing(String),
    /// The main loop has gone away.
    MainLoopGone,
    /// Writing to the connection failed.
    WriteFailed,
    /// The connection has been idle for the ping interval.
    Idle,
}

/// What the network task does about an event.
#[derive(Debug, PartialEq)]
pub enum WsAction {
    /// Hand a server message to `handle_server_message`.
    Dispatch(String),
    /// Send a text message to the server.
    Send(String),
    /// Ping the server.
    Ping,
    /// Nothing.
    Ignore,
    /// Drop the connection and connect again.
    Reconnect,
    /// Stop the client.
    Shutdown,
}

/// The network task's response to an event on an open connection: server
/// text is dispatched and the main loop's text sent, both unchanged; other
/// frames are ignored, an idle connection pinged, a closed or failed one
/// dropped for a new one, and the task stops when the main loop is gone.
pub open spec fn event_action(ev: WsEvent) -> WsAction {
    match ev {
        WsEvent::Text(t) => WsAction::Dispatch(t),
        WsEvent::OtherFrame => WsAction::Ignore,
        WsEvent::Closed => WsAction::Reconnect,
        WsEvent::ReadFailed => WsAction::Reconnect,
        WsEvent::Outgoing(m) => WsAction::Send(m),
        WsEvent::MainLoopGone => WsAction::Shutdown,
        WsEvent::WriteFailed => WsAction::Reconnect,
        WsEvent::Idle => WsAction::Ping,
    }
}

/// The network task's response to an event on an open connection (see
/// `event_action`).
pub fn ws_event_action(ev: WsEvent) -> (r: WsAction)
    ensures
        r == event_action(ev),
{
    match ev {
        WsEvent::Text(t) => WsAction::Dispatch(t),
        WsEvent::OtherFrame => WsAction::Ignore,
        WsEvent::Closed => WsAction::Reconnect,
        WsEvent::ReadFailed => WsAction::Reconnect,
        WsEvent::Outgoing(m) => WsAction::Send(m),
        WsEvent::MainLoopGone => WsAction::Shutdown,
        WsEvent::WriteFailed => WsAction::Reconnect,
        WsEvent::Idle => WsAction::Ping,
    }
}

} // verus!

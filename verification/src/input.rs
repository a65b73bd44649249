//! Terminal input: the events the terminal reports, and the inputs the
//! client makes of them: its own key and mouse inputs.
use vstd::prelude::*;

use crate::protocol;
use crate::text::{ascii_lower, decimal, string_of, string_push, char_to_ascii_lowercase, decimal_string};

verus! {

// ─── Terminal events ────────────────────────────────────────────────────────
/// A mouse button as the terminal reports it.
#[derive(Debug, Clone, Copy, PartialEq, Eq, Structural)]
pub enum TermButton {
    Left,
    Right,
    Middle,
}

/// What happened to the mouse.
#[derive(Debug, Clone, Copy, PartialEq, Eq, Structural)]
pub enum TermMouseKind {
    Down(TermButton),
    Up(TermButton),
    Drag(TermButton),
    Moved,
    ScrollDown,
    ScrollUp,
    ScrollLeft,
    ScrollRight,
}

/// A mouse event at a terminal cell.
#[derive(Debug, Clone, Copy, PartialEq, Eq, Structural)]
pub struct TermMouseEvent {
    pub kind: TermMouseKind,
    pub column: u16,
    pub row: u16,
    /// Bits of the modifier keys held (see `SHIFT`, `CONTROL`, `ALT`).
    pub modifiers: u8,
}

/// A key as the terminal reports it.
#[derive(Debug, Clone, Copy, PartialEq, Eq, Structural)]
pub enum TermKeyCode {
    Backspace,
    Enter,
    Left,
    Right,
    Up,
    Down,
    Home,
    End,
    PageUp,
    PageDown,
    Tab,
    BackTab,
    Delete,
    Insert,
    F(u8),
    Char(char),
    Null,
    Esc,
    CapsLock,
    ScrollLock,
    NumLock,
    PrintScreen,
    Pause,
    Menu,
    KeypadBegin,
    Media,
    Modifier,
}

/// Whether a key went down, repeats, or went up.
#[derive(Debug, Clone, Copy, PartialEq, Eq, Structural)]
pub enum TermKeyKind {
    Press,
    Repeat,
    Release,
}

/// A key event.
#[derive(Debug, Clone, Copy, PartialEq, Eq, Structural)]
pub struct TermKeyEvent {
    pub code: TermKeyCode,
    /// Bits of the modifier keys held (see `SHIFT`, `CONTROL`, `ALT`).
    pub modifiers: u8,
    pub kind: TermKeyKind,
}

/// The modifier bit of the shift key.
pub const SHIFT: u8 = 0b0000_0001;

/// The modifier bit of the control key.
pub const CONTROL: u8 = 0b0000_0010;

/// The modifier bit of the alt key.
pub const ALT: u8 = 0b0000_0100;

/// Whether the modifier bits `m` include all of `flag`.
pub open spec fn has_modifier(m: u8, flag: u8) -> bool {
    m & flag == flag
}

fn contains_modifier(m: u8, flag: u8) -> (r: bool)
    ensures
        r == has_modifier(m, flag),
{
    m & flag == flag
}

// ─── Client inputs ──────────────────────────────────────────────────────────
/// An input the client acts on.
#[derive(Debug, Clone)]
pub enum InputEvent {
    Mouse(MouseInput),
    Key(KeyInput),
    Resize { cols: u16, rows: u16 },
}

/// A mouse input at a cell.
#[derive(Debug, Clone, Copy, PartialEq, Eq, Structural)]
pub struct MouseInput {
    pub action: MouseAction,
    pub button: MouseButtonType,
    pub col: u16,
    pub row: u16,
}

#[derive(Debug, Clone, Copy, PartialEq, Eq, Structural)]
pub enum MouseAction {
    Click,
    Drag,
    Release,
    ScrollUp,
    ScrollDown,
    ScrollLeft,
    ScrollRight,
}

#[derive(Debug, Clone, Copy, PartialEq, Eq, Structural)]
pub enum MouseButtonType {
    Left,
    Middle,
    Right,
    NoButton,
}

/// A key input: the key's name (the character for text keys) and the
/// modifiers held.
#[derive(Debug, Clone)]
pub struct KeyInput {
    pub key: String,
    pub ctrl: bool,
    pub alt: bool,
    pub shift: bool,
    pub is_special: bool,
}

/// The name a button is sent by.
pub open spec fn button_name(b: MouseButtonType) -> Seq<char> {
    match b {
        MouseButtonType::Left => "left"@,
        MouseButtonType::Middle => "middle"@,
        MouseButtonType::Right => "right"@,
        MouseButtonType::NoButton => "left"@,
    }
}

impl MouseButtonType {
    /// The name the button is sent by; no button counts as the left one.
    pub fn to_string(&self) -> (r: String)
        ensures
            r@ == button_name(*self),
    {
        match self {
            MouseButtonType::Left => string_of("left"),
            MouseButtonType::Middle => string_of("middle"),
            MouseButtonType::Right => string_of("right"),
            MouseButtonType::NoButton => string_of("left"),
        }
    }
}

pub open spec fn button_of(b: TermButton) -> MouseButtonType {
    match b {
        TermButton::Left => MouseButtonType::Left,
        TermButton::Middle => MouseButtonType::Middle,
        TermButton::Right => MouseButtonType::Right,
    }
}

fn match_crossterm_button(btn: TermButton) -> (r: MouseButtonType)
    ensures
        r == button_of(btn),
{
    match btn {
        TermButton::Left => MouseButtonType::Left,
        TermButton::Middle => MouseButtonType::Middle,
        TermButton::Right => MouseButtonType::Right,
    }
}

/// The action and button of a mouse event: a button going down clicks, going
/// up releases, and moving (with or without a button) drags.
pub open spec fn mouse_action_of(kind: TermMouseKind) -> (MouseAction, MouseButtonType) {
    match kind {
        TermMouseKind::Down(b) => (MouseAction::Click, button_of(b)),
        TermMouseKind::Up(b) => (MouseAction::Release, button_of(b)),
        TermMouseKind::Drag(b) => (MouseAction::Drag, button_of(b)),
        TermMouseKind::Moved => (MouseAction::Drag, MouseButtonType::NoButton),
        TermMouseKind::ScrollDown => (MouseAction::ScrollDown, MouseButtonType::NoButton),
        TermMouseKind::ScrollUp => (MouseAction::ScrollUp, MouseButtonType::NoButton),
        TermMouseKind::ScrollLeft => (MouseAction::ScrollLeft, MouseButtonType::NoButton),
        TermMouseKind::ScrollRight => (MouseAction::ScrollRight, MouseButtonType::NoButton),
    }
}

/// Translates a terminal mouse event; every mouse event becomes an input.
pub fn parse_mouse(event: &TermMouseEvent) -> (r: Option<InputEvent>)
    ensures
        r matches Some(InputEvent::Mouse(m)) && m == (MouseInput {
            action: mouse_action_of(event.kind).0,
            button: mouse_action_of(event.kind).1,
            col: event.column,
            row: event.row,
        }),
{
    let (col, row) = (event.column, event.row);
    let (action, button) = match event.kind {
        TermMouseKind::Down(btn) => {
            let b = match_crossterm_button(btn);
            (MouseAction::Click, b)
        },
        TermMouseKind::Up(btn) => {
            let b = match_crossterm_button(btn);
            (MouseAction::Release, b)
        },
        TermMouseKind::Drag(btn) => {
            let b = match_crossterm_button(btn);
            (MouseAction::Drag, b)
        },
        TermMouseKind::Moved => (MouseAction::Drag, MouseButtonType::NoButton),
        TermMouseKind::ScrollDown => (MouseAction::ScrollDown, MouseButtonType::NoButton),
        TermMouseKind::ScrollUp => (MouseAction::ScrollUp, MouseButtonType::NoButton),
        TermMouseKind::ScrollLeft => (MouseAction::ScrollLeft, MouseButtonType::NoButton),
        TermMouseKind::ScrollRight => (MouseAction::ScrollRight, MouseButtonType::NoButton),
    };
    Some(InputEvent::Mouse(MouseInput { action, button, col, row }))
}

/// The name a key is sent by, and whether it is a special (non-text) key. A
/// character typed with control held is lower-cased.
pub open spec fn key_name(code: TermKeyCode, ctrl: bool) -> (Seq<char>, bool) {
    match code {
        TermKeyCode::Char(c) => if ctrl {
            (seq![ascii_lower(c)], false)
        } else {
            (seq![c], false)
        },
        TermKeyCode::Enter => ("Enter"@, true),
        TermKeyCode::Tab => ("Tab"@, true),
        TermKeyCode::Backspace => ("Backspace"@, true),
        TermKeyCode::Esc => ("Escape"@, true),
        TermKeyCode::Delete => ("Delete"@, true),
        TermKeyCode::Home => ("Home"@, true),
        TermKeyCode::End => ("End"@, true),
        TermKeyCode::PageUp => ("PageUp"@, true),
        TermKeyCode::PageDown => ("PageDown"@, true),
        TermKeyCode::Up => ("ArrowUp"@, true),
        TermKeyCode::Down => ("ArrowDown"@, true),
        TermKeyCode::Left => ("ArrowLeft"@, true),
        TermKeyCode::Right => ("ArrowRight"@, true),
        TermKeyCode::F(n) => ("F"@ + decimal(n as nat), true),
        TermKeyCode::Insert => ("Insert"@, true),
        _ => ("Unidentified"@, true),
    }
}

fn char_string(c: char) -> (r: String)
    ensures
        r@ == seq![c],
{
    let mut s = String::new();
    string_push(&mut s, c);
    assert(s@ =~= seq![c]);
    s
}

/// Translates a terminal key event into a key input.
pub fn parse_key(event: &TermKeyEvent) -> (r: InputEvent)
    ensures
        r matches InputEvent::Key(k) && k.key@ == key_name(
            event.code,
            has_modifier(event.modifiers, CONTROL),
        ).0 && k.is_special == key_name(event.code, has_modifier(event.modifiers, CONTROL)).1
            && k.ctrl == has_modifier(event.modifiers, CONTROL) && k.alt == has_modifier(
            event.modifiers,
            ALT,
        ) && k.shift == has_modifier(event.modifiers, SHIFT),
{
    let ctrl = contains_modifier(event.modifiers, CONTROL);
    let alt = contains_modifier(event.modifiers, ALT);
    let shift = contains_modifier(event.modifiers, SHIFT);
    let (key, is_special) = match event.code {
        TermKeyCode::Char(c) => {
            if ctrl {
                (char_string(char_to_ascii_lowercase(c)), false)
            } else if alt {
                (char_string(c), false)
            } else {
                (char_string(c), false)
            }
        },
        TermKeyCode::Enter => (string_of("Enter"), true),
        TermKeyCode::Tab => (string_of("Tab"), true),
        TermKeyCode::Backspace => (string_of("Backspace"), true),
        TermKeyCode::Esc => (string_of("Escape"), true),
        TermKeyCode::Delete => (string_of("Delete"), true),
        TermKeyCode::Home => (string_of("Home"), true),
        TermKeyCode::End => (string_of("End"), true),
        TermKeyCode::PageUp => (string_of("PageUp"), true),
        TermKeyCode::PageDown => (string_of("PageDown"), true),
        TermKeyCode::Up => (string_of("ArrowUp"), true),
        TermKeyCode::Down => (string_of("ArrowDown"), true),
        TermKeyCode::Left => (string_of("ArrowLeft"), true),
        TermKeyCode::Right => (string_of("ArrowRight"), true),
        TermKeyCode::F(n) => {
            let mut s = string_of("F");
            let digits = decimal_string(n as u64);
            crate::text::append_str(&mut s, digits.as_str());
            (s, true)
        },
        TermKeyCode::Insert => (string_of("Insert"), true),
        TermKeyCode::Null => (string_of("Unidentified"), true),
        _ => (string_of("Unidentified"), true),
    };
    InputEvent::Key(KeyInput { key, ctrl, alt, shift, is_special })
}

/// The modifiers a key press is sent with: those held, never meta.
pub fn key_to_modifiers(key: &KeyInput) -> (r: protocol::KeyModifiers)
    ensures
        r.alt == key.alt,
        r.ctrl == key.ctrl,
        r.shift == key.shift,
        !r.meta,
{
    protocol::KeyModifiers { alt: key.alt, ctrl: key.ctrl, shift: key.shift, meta: false }
}

} // verus!

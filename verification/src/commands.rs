//! The command interpreter of the client's main loop. The input and network
//! tasks send it text commands (`url_key:Enter`, `status:...`, ...); each one
//! updates the display state and may produce a message for the server.
//!
//! `command_outcome` states what a command does, as a function of the state
//! before it; `None` marks the commands on which the interpreter cannot run
//! (a cursor that is not on a character boundary of the text it edits).
use vstd::prelude::*;
use vstd::string::StrSliceExecFns;

use crate::display::{DisplayState, DisplayView, Mode, TabInfo, TabView, tab_views, log_after_push};
use crate::json::JsonView;
use crate::protocol::{Message, NavigatePayload, FindInPagePayload, SwitchTabPayload, ToPayload};
use crate::protocol::types::{NAVIGATE, FIND_IN_PAGE, SWITCH_TAB};
use crate::text::{
    byte_len, char_index_at, contains_text, parsed_usize, string_len, is_one_byte, string_insert,
    string_remove, string_clear, take_string, strip_prefix, starts_with, str_contains, str_eq,
    is_boundary,
    parse_usize, string_of, append_str, lemma_one_byte, lemma_char_index_at_sound,
    lemma_byte_len_take_le,
};

verus! {

/// What a command asks to send to the server.
pub enum Reply {
    Nothing,
    Navigate(Seq<char>),
    FindInPage(Seq<char>),
    SwitchTab(Seq<char>),
    /// The JSON text of a message that the input task built, sent as it is.
    Forward(Seq<char>),
}

/// The type and payload of the message a reply is built as; `None` for no
/// reply and for a forwarded text, which is sent as it came.
pub open spec fn reply_message(r: Reply) -> Option<(Seq<char>, JsonView)> {
    match r {
        Reply::Nothing => None,
        Reply::Navigate(u) => Some((NAVIGATE@, JsonView::Object(seq![("url"@, JsonView::Str(u))]))),
        Reply::FindInPage(t) => Some(
            (FIND_IN_PAGE@, JsonView::Object(seq![("text"@, JsonView::Str(t))])),
        ),
        Reply::SwitchTab(id) => Some(
            (SWITCH_TAB@, JsonView::Object(seq![("tab_id"@, JsonView::Str(id))])),
        ),
        Reply::Forward(_) => None,
    }
}

/// What the main loop sends the server for a command.
#[derive(Debug)]
pub enum ToServer {
    /// A message built by the interpreter.
    Message(Message),
    /// The JSON text of a message built by the input task, unchanged.
    Json(String),
}

/// `m` is what the main loop sends for reply `r`.
pub open spec fn is_reply(m: Option<ToServer>, r: Reply) -> bool {
    match r {
        Reply::Nothing => m is None,
        Reply::Forward(j) => m matches Some(ToServer::Json(t)) && t@ == j,
        _ => m matches Some(ToServer::Message(msg)) && reply_message(r) == Some(
            (msg.msg_type@, msg.payload@),
        ) && msg.timestamp is Some,
    }
}

/// The names of keys that URL editing never types as text.
pub open spec fn url_special_key(k: Seq<char>) -> bool {
    ||| k == "Enter"@
    ||| k == "Escape"@
    ||| k == "Backspace"@
    ||| k == "Delete"@
    ||| k == "Left"@
    ||| k == "Right"@
    ||| k == "Home"@
    ||| k == "End"@
    ||| k == "Tab"@
    ||| k == "Up"@
    ||| k == "Down"@
    ||| k == "PageUp"@
    ||| k == "PageDown"@
    ||| k == "Insert"@
}

/// The names of keys that find editing never types as text.
pub open spec fn find_special_key(k: Seq<char>) -> bool {
    ||| k == "Enter"@
    ||| k == "Escape"@
    ||| k == "Backspace"@
    ||| k == "Delete"@
}

/// The text typed at the cursor when `key` reaches the editor: a one-byte key
/// that is not a key name.
pub open spec fn typed_key(key: Seq<char>, special: bool) -> bool {
    byte_len(key) == 1 && !special
}

/// Backspace at byte cursor `c`: the character ending at `c` goes, and the
/// cursor steps back one byte. `None` when `c - 1` is not the start of a
/// character.
pub open spec fn backspace_edit(buf: Seq<char>, c: usize) -> Option<(Seq<char>, usize)> {
    match char_index_at(buf, c - 1) {
        Some(k) => if k < buf.len() {
            Some((buf.remove(k), (c - 1) as usize))
        } else {
            None
        },
        None => None,
    }
}

/// Delete at byte cursor `c`: the character starting at `c` goes. `None` when
/// `c` is not the start of a character.
pub open spec fn delete_edit(buf: Seq<char>, c: usize) -> Option<Seq<char>> {
    match char_index_at(buf, c as int) {
        Some(k) => if k < buf.len() {
            Some(buf.remove(k))
        } else {
            None
        },
        None => None,
    }
}

/// Typing `ch` at byte cursor `c`. `None` when `c` is not a boundary.
pub open spec fn insert_edit(buf: Seq<char>, c: usize, ch: char) -> Option<Seq<char>> {
    match char_index_at(buf, c as int) {
        Some(k) => Some(buf.insert(k, ch)),
        None => None,
    }
}

/// Where Enter in the address bar goes: the text itself when it names a
/// scheme, else the text over https.
pub open spec fn navigation_target(text: Seq<char>) -> Seq<char> {
    if contains_text(text, "://"@) {
        text
    } else {
        "https://"@ + text
    }
}

/// The effect of a key name sent to the address-bar editor.
pub open spec fn url_key_outcome(s: DisplayView, key: Seq<char>) -> Option<(DisplayView, Reply)> {
    if key == "Enter"@ {
        let nav = navigation_target(s.url_buffer);
        Some(
            (
                DisplayView { url: nav, url_buffer: Seq::empty(), mode: Mode::Normal, ..s },
                Reply::Navigate(nav),
            ),
        )
    } else if key == "Escape"@ {
        Some((DisplayView { mode: Mode::Normal, url_buffer: Seq::empty(), ..s }, Reply::Nothing))
    } else if key == "Backspace"@ {
        match s.mode {
            Mode::UrlInput { cursor } => if cursor > 0 {
                match backspace_edit(s.url_buffer, cursor) {
                    Some((b, c)) => Some(
                        (
                            DisplayView { url_buffer: b, mode: Mode::UrlInput { cursor: c }, ..s },
                            Reply::Nothing,
                        ),
                    ),
                    None => None,
                }
            } else {
                Some((s, Reply::Nothing))
            },
            _ => Some((s, Reply::Nothing)),
        }
    } else if key == "Delete"@ {
        match s.mode {
            Mode::UrlInput { cursor } => if cursor < byte_len(s.url_buffer) {
                match delete_edit(s.url_buffer, cursor) {
                    Some(b) => Some(
                        (
                            DisplayView { url_buffer: b, mode: Mode::UrlInput { cursor }, ..s },
                            Reply::Nothing,
                        ),
                    ),
                    None => None,
                }
            } else {
                Some((s, Reply::Nothing))
            },
            _ => Some((s, Reply::Nothing)),
        }
    } else if key == "Left"@ {
        match s.mode {
            Mode::UrlInput { cursor } => if cursor > 0 {
                Some(
                    (
                        DisplayView { mode: Mode::UrlInput { cursor: (cursor - 1) as usize }, ..s },
                        Reply::Nothing,
                    ),
                )
            } else {
                Some((s, Reply::Nothing))
            },
            _ => Some((s, Reply::Nothing)),
        }
    } else if key == "Right"@ {
        match s.mode {
            Mode::UrlInput { cursor } => if cursor < byte_len(s.url_buffer) {
                Some(
                    (
                        DisplayView { mode: Mode::UrlInput { cursor: (cursor + 1) as usize }, ..s },
                        Reply::Nothing,
                    ),
                )
            } else {
                Some((s, Reply::Nothing))
            },
            _ => Some((s, Reply::Nothing)),
        }
    } else if key == "Home"@ {
        match s.mode {
            Mode::UrlInput { .. } => Some(
                (DisplayView { mode: Mode::UrlInput { cursor: 0 }, ..s }, Reply::Nothing),
            ),
            _ => Some((s, Reply::Nothing)),
        }
    } else if key == "End"@ {
        match s.mode {
            Mode::UrlInput { .. } => Some(
                (
                    DisplayView {
                        mode: Mode::UrlInput { cursor: byte_len(s.url_buffer) as usize },
                        ..s
                    },
                    Reply::Nothing,
                ),
            ),
            _ => Some((s, Reply::Nothing)),
        }
    } else if typed_key(key, url_special_key(key)) {
        match s.mode {
            Mode::UrlInput { cursor } => match insert_edit(s.url_buffer, cursor, key[0]) {
                Some(b) => Some(
                    (
                        DisplayView {
                            url_buffer: b,
                            mode: Mode::UrlInput { cursor: (cursor + 1) as usize },
                            ..s
                        },
                        Reply::Nothing,
                    ),
                ),
                None => None,
            },
            _ => Some((s, Reply::Nothing)),
        }
    } else {
        Some((s, Reply::Nothing))
    }
}

/// The effect of a key name sent to the find-bar editor.
pub open spec fn find_key_outcome(s: DisplayView, key: Seq<char>) -> Option<(DisplayView, Reply)> {
    if key == "Enter"@ {
        let text = s.find_buffer;
        let next = DisplayView { find_buffer: Seq::empty(), mode: Mode::Normal, ..s };
        if text.len() > 0 {
            Some((next, Reply::FindInPage(text)))
        } else {
            Some((next, Reply::Nothing))
        }
    } else if key == "Backspace"@ {
        match s.mode {
            Mode::FindActive { cursor } => if cursor > 0 {
                match backspace_edit(s.find_buffer, cursor) {
                    Some((b, c)) => Some(
                        (
                            DisplayView {
                                find_buffer: b,
                                mode: Mode::FindActive { cursor: c },
                                ..s
                            },
                            Reply::Nothing,
                        ),
                    ),
                    None => None,
                }
            } else {
                Some((s, Reply::Nothing))
            },
            _ => Some((s, Reply::Nothing)),
        }
    } else if key == "Delete"@ {
        match s.mode {
            Mode::FindActive { cursor } => if cursor < byte_len(s.find_buffer) {
                match delete_edit(s.find_buffer, cursor) {
                    Some(b) => Some(
                        (
                            DisplayView { find_buffer: b, mode: Mode::FindActive { cursor }, ..s },
                            Reply::Nothing,
                        ),
                    ),
                    None => None,
                }
            } else {
                Some((s, Reply::Nothing))
            },
            _ => Some((s, Reply::Nothing)),
        }
    } else if key == "clear"@ {
        Some((DisplayView { find_buffer: Seq::empty(), ..s }, Reply::Nothing))
    } else if typed_key(key, find_special_key(key)) {
        match s.mode {
            Mode::FindActive { cursor } => match insert_edit(s.find_buffer, cursor, key[0]) {
                Some(b) => Some(
                    (
                        DisplayView {
                            find_buffer: b,
                            mode: Mode::FindActive { cursor: (cursor + 1) as usize },
                            ..s
                        },
                        Reply::Nothing,
                    ),
                ),
                None => None,
            },
            _ => Some((s, Reply::Nothing)),
        }
    } else {
        Some((s, Reply::Nothing))
    }
}

/// The text after `prefix` in `cmd`.
pub open spec fn after(cmd: Seq<char>, prefix: Seq<char>) -> Seq<char> {
    cmd.skip(prefix.len() as int)
}

/// The effect of command `cmd` on the display state `s`, with `parsed` the
/// tab list that the text of a `tabs:` command parses to, if it does.
pub open spec fn command_outcome(
    s: DisplayView,
    cmd: Seq<char>,
    parsed: Option<Seq<TabView>>,
) -> Option<(DisplayView, Reply)> {
    if "url_navigate:"@.is_prefix_of(cmd) {
        let url = after(cmd, "url_navigate:"@);
        Some(
            (
                DisplayView { url, mode: Mode::Normal, url_buffer: Seq::empty(), ..s },
                Reply::Nothing,
            ),
        )
    } else if "url_set:"@.is_prefix_of(cmd) {
        let url = after(cmd, "url_set:"@);
        Some((DisplayView { url, url_buffer: url, ..s }, Reply::Nothing))
    } else if cmd == "mode:normal"@ {
        Some((DisplayView { mode: Mode::Normal, ..s }, Reply::Nothing))
    } else if cmd == "mode:url"@ {
        Some(
            (
                DisplayView {
                    url_buffer: s.url,
                    mode: Mode::UrlInput { cursor: byte_len(s.url) as usize },
                    ..s
                },
                Reply::Nothing,
            ),
        )
    } else if "url_key:"@.is_prefix_of(cmd) {
        url_key_outcome(s, after(cmd, "url_key:"@))
    } else if "find_key:"@.is_prefix_of(cmd) {
        find_key_outcome(s, after(cmd, "find_key:"@))
    } else if "mode:find"@.is_prefix_of(cmd) {
        Some(
            (
                DisplayView { mode: Mode::FindActive { cursor: 0 }, find_buffer: Seq::empty(), ..s },
                Reply::Nothing,
            ),
        )
    } else if "switch_to_tab_idx:"@.is_prefix_of(cmd) {
        match parsed_usize(after(cmd, "switch_to_tab_idx:"@)) {
            Some(idx) => if 0 < idx && idx <= s.tabs.len() {
                Some((s, Reply::SwitchTab(s.tabs[idx - 1].id)))
            } else {
                Some((s, Reply::Nothing))
            },
            None => Some((s, Reply::Nothing)),
        }
    } else if "loading:"@.is_prefix_of(cmd) {
        Some((DisplayView { loading: after(cmd, "loading:"@) == "true"@, ..s }, Reply::Nothing))
    } else if "status:"@.is_prefix_of(cmd) {
        Some((DisplayView { status: after(cmd, "status:"@), ..s }, Reply::Nothing))
    } else if "error_msg:"@.is_prefix_of(cmd) {
        let val = after(cmd, "error_msg:"@);
        Some(
            (
                DisplayView {
                    error_log: log_after_push(s.error_log, val),
                    status: "⚠ "@ + val,
                    ..s
                },
                Reply::Nothing,
            ),
        )
    } else if "tabs:"@.is_prefix_of(cmd) {
        match parsed {
            Some(tabs) => Some((DisplayView { tabs, ..s }, Reply::Nothing)),
            None => Some((s, Reply::Nothing)),
        }
    } else if "ws:"@.is_prefix_of(cmd) {
        Some((s, Reply::Forward(after(cmd, "ws:"@))))
    } else {
        Some((s, Reply::Nothing))
    }
}

/// The tab list a parse produced, as views.
pub open spec fn parsed_tabs_view(p: Option<Vec<TabInfo>>) -> Option<Seq<TabView>> {
    match p {
        Some(v) => Some(tab_views(v@)),
        None => None,
    }
}

fn backspace_at(buf: &mut String, cursor: usize) -> (c: usize)
    requires
        cursor > 0,
        backspace_edit(old(buf)@, cursor) is Some,
    ensures
        (final(buf)@, c) == backspace_edit(old(buf)@, cursor)->0,
{
    let c = cursor - 1;
    string_remove(buf, c);
    c
}

fn delete_at(buf: &mut String, cursor: usize)
    requires
        delete_edit(old(buf)@, cursor) is Some,
    ensures
        final(buf)@ == delete_edit(old(buf)@, cursor)->0,
{
    string_remove(buf, cursor);
}

fn insert_at(buf: &mut String, cursor: usize, key: &str) -> (c: usize)
    requires
        byte_len(key@) == 1,
        insert_edit(old(buf)@, cursor, key@[0]) is Some,
    ensures
        final(buf)@ == insert_edit(old(buf)@, cursor, key@[0])->0,
        c == cursor + 1,
{
    proof {
        lemma_one_byte(key@);
        let k = char_index_at(old(buf)@, cursor as int)->0;
        lemma_char_index_at_sound(old(buf)@, cursor as int);
        lemma_byte_len_take_le(old(buf)@, k);
    }
    // The buffer's length bounds the cursor, so the step past the new
    // character cannot overflow.
    let _len = string_len(buf);
    let ch = key.get_char(0);
    string_insert(buf, cursor, ch);
    cursor + 1
}

fn is_url_special(key: &str) -> (r: bool)
    ensures
        r == url_special_key(key@),
{
    str_eq(key, "Enter") || str_eq(key, "Escape") || str_eq(key, "Backspace") || str_eq(
        key,
        "Delete",
    ) || str_eq(key, "Left") || str_eq(key, "Right") || str_eq(key, "Home") || str_eq(key, "End")
        || str_eq(key, "Tab") || str_eq(key, "Up") || str_eq(key, "Down") || str_eq(key, "PageUp")
        || str_eq(key, "PageDown") || str_eq(key, "Insert")
}

fn is_find_special(key: &str) -> (r: bool)
    ensures
        r == find_special_key(key@),
{
    str_eq(key, "Enter") || str_eq(key, "Escape") || str_eq(key, "Backspace") || str_eq(
        key,
        "Delete",
    )
}

fn handle_url_key(state: &mut DisplayState, key: &str) -> (r: Option<ToServer>)
    requires
        url_key_outcome(old(state)@, key@) is Some,
    ensures
        final(state)@ == url_key_outcome(old(state)@, key@).unwrap().0,
        is_reply(r, url_key_outcome(old(state)@, key@).unwrap().1),
{
    if str_eq(key, "Enter") {
        let url = take_string(&mut state.url_buffer);
        let nav_url = if str_contains(url.as_str(), "://") {
            url
        } else {
            let mut s = string_of("https://");
            append_str(&mut s, url.as_str());
            s
        };
        state.url = nav_url.clone();
        state.mode = Mode::Normal;
        let p = NavigatePayload { url: nav_url, tab_id: None };
        let msg = Message::new(NAVIGATE, p.to_payload());
        assert(msg.payload@ == JsonView::Object(seq![("url"@, JsonView::Str(p.url@))])) by {
            assert(seq![("url"@, JsonView::Str(p.url@))] + Seq::empty() =~= seq![
                ("url"@, JsonView::Str(p.url@)),
            ]);
        }
        return Some(ToServer::Message(msg));
    } else if str_eq(key, "Escape") {
        state.mode = Mode::Normal;
        string_clear(&mut state.url_buffer);
    } else if str_eq(key, "Backspace") {
        if let Mode::UrlInput { cursor } = state.mode {
            if cursor > 0 {
                let c = backspace_at(&mut state.url_buffer, cursor);
                state.mode = Mode::UrlInput { cursor: c };
            }
        }
    } else if str_eq(key, "Delete") {
        if let Mode::UrlInput { cursor } = state.mode {
            if cursor < string_len(&state.url_buffer) {
                delete_at(&mut state.url_buffer, cursor);
                state.mode = Mode::UrlInput { cursor };
            }
        }
    } else if str_eq(key, "Left") {
        if let Mode::UrlInput { cursor } = state.mode {
            if cursor > 0 {
                state.mode = Mode::UrlInput { cursor: cursor - 1 };
            }
        }
    } else if str_eq(key, "Right") {
        if let Mode::UrlInput { cursor } = state.mode {
            if cursor < string_len(&state.url_buffer) {
                state.mode = Mode::UrlInput { cursor: cursor + 1 };
            }
        }
    } else if str_eq(key, "Home") {
        if let Mode::UrlInput { .. } = state.mode {
            state.mode = Mode::UrlInput { cursor: 0 };
        }
    } else if str_eq(key, "End") {
        if let Mode::UrlInput { .. } = state.mode {
            state.mode = Mode::UrlInput { cursor: string_len(&state.url_buffer) };
        }
    } else {
        if is_one_byte(key) && !is_url_special(key) {
            if let Mode::UrlInput { cursor } = state.mode {
                let c = insert_at(&mut state.url_buffer, cursor, key);
                state.mode = Mode::UrlInput { cursor: c };
            }
        }
    }
    None
}

fn handle_find_key(state: &mut DisplayState, key: &str) -> (r: Option<ToServer>)
    requires
        find_key_outcome(old(state)@, key@) is Some,
    ensures
        final(state)@ == find_key_outcome(old(state)@, key@).unwrap().0,
        is_reply(r, find_key_outcome(old(state)@, key@).unwrap().1),
{
    if str_eq(key, "Enter") {
        let text = take_string(&mut state.find_buffer);
        if !text.as_str().is_empty() {
            let p = FindInPagePayload { text, tab_id: None };
            let msg = Message::new(FIND_IN_PAGE, p.to_payload());
            assert(msg.payload@ == JsonView::Object(seq![("text"@, JsonView::Str(p.text@))])) by {
                assert(seq![("text"@, JsonView::Str(p.text@))] + Seq::empty() =~= seq![
                    ("text"@, JsonView::Str(p.text@)),
                ]);
            }
            state.mode = Mode::Normal;
            return Some(ToServer::Message(msg));
        } else {
            state.mode = Mode::Normal;
        }
    } else if str_eq(key, "Backspace") {
        if let Mode::FindActive { cursor } = state.mode {
            if cursor > 0 {
                let c = backspace_at(&mut state.find_buffer, cursor);
                state.mode = Mode::FindActive { cursor: c };
            }
        }
    } else if str_eq(key, "Delete") {
        if let Mode::FindActive { cursor } = state.mode {
            if cursor < string_len(&state.find_buffer) {
                delete_at(&mut state.find_buffer, cursor);
                state.mode = Mode::FindActive { cursor };
            }
        }
    } else if str_eq(key, "clear") {
        string_clear(&mut state.find_buffer);
    } else {
        if is_one_byte(key) && !is_find_special(key) {
            if let Mode::FindActive { cursor } = state.mode {
                let c = insert_at(&mut state.find_buffer, cursor, key);
                state.mode = Mode::FindActive { cursor: c };
            }
        }
    }
    None
}

/// The text of a `tabs:` command, which the caller parses as a JSON list of
/// tabs before handing the command over.
pub fn tabs_json(cmd: &str) -> (r: Option<&str>)
    ensures
        r is Some <==> "tabs:"@.is_prefix_of(cmd@),
        r matches Some(t) ==> t@ == after(cmd@, "tabs:"@),
{
    strip_prefix(cmd, "tabs:")
}

/// Runs command `cmd` against the display state and returns what to send to
/// the server, if the command asks for something: a message it builds, or,
/// for a `ws:` command, the JSON text after `ws:` as it is. `parsed_tabs` is the tab
/// list that the text of a `tabs:` command parses to (see `tabs_json`); it is
/// not looked at for other commands.
pub fn handle_command(state: &mut DisplayState, cmd: &str, parsed_tabs: Option<Vec<TabInfo>>) -> (r:
    Option<ToServer>)
    requires
        command_outcome(old(state)@, cmd@, parsed_tabs_view(parsed_tabs)) is Some,
    ensures
        final(state)@ == command_outcome(old(state)@, cmd@, parsed_tabs_view(parsed_tabs)).unwrap().0,
        is_reply(r, command_outcome(old(state)@, cmd@, parsed_tabs_view(parsed_tabs)).unwrap().1),
{
    if let Some(url) = strip_prefix(cmd, "url_navigate:") {
        state.url = string_of(url);
        state.mode = Mode::Normal;
        string_clear(&mut state.url_buffer);
    } else if let Some(url) = strip_prefix(cmd, "url_set:") {
        state.url = string_of(url);
        state.url_buffer = string_of(url);
    } else if str_eq(cmd, "mode:normal") {
        state.mode = Mode::Normal;
    } else if str_eq(cmd, "mode:url") {
        state.url_buffer = state.url.clone();
        state.mode = Mode::UrlInput { cursor: string_len(&state.url) };
    } else if let Some(key) = strip_prefix(cmd, "url_key:") {
        return handle_url_key(state, key);
    } else if let Some(key) = strip_prefix(cmd, "find_key:") {
        return handle_find_key(state, key);
    } else if starts_with(cmd, "mode:find") {
        state.mode = Mode::FindActive { cursor: 0 };
        string_clear(&mut state.find_buffer);
    } else if let Some(idx_str) = strip_prefix(cmd, "switch_to_tab_idx:") {
        if let Some(idx) = parse_usize(idx_str) {
            if idx > 0 && idx <= state.tabs.len() {
                let tab_id = state.tabs[idx - 1].id.clone();
                let p = SwitchTabPayload { tab_id };
                let msg = Message::new(SWITCH_TAB, p.to_payload());
                return Some(ToServer::Message(msg));
            }
        }
    } else if let Some(val) = strip_prefix(cmd, "loading:") {
        state.loading = str_eq(val, "true");
    } else if let Some(val) = strip_prefix(cmd, "status:") {
        state.status = string_of(val);
    } else if let Some(val) = strip_prefix(cmd, "error_msg:") {
        state.push_error(val);
        let mut s = string_of("⚠ ");
        append_str(&mut s, val);
        state.status = s;
    } else if let Some(_val) = strip_prefix(cmd, "tabs:") {
        if let Some(tabs) = parsed_tabs {
            state.tabs = tabs;
        }
    } else if let Some(json) = strip_prefix(cmd, "ws:") {
        return Some(ToServer::Json(string_of(json)));
    }
    None
}

fn backspace_runs(buf: &String, cursor: usize) -> (r: bool)
    requires
        cursor > 0,
    ensures
        r == backspace_edit(buf@, cursor) is Some,
{
    let len = string_len(buf);
    proof {
        lemma_boundary_before_end(buf@, cursor - 1);
    }
    cursor - 1 < len && is_boundary(buf.as_str(), cursor - 1)
}

fn delete_runs(buf: &String, cursor: usize) -> (r: bool)
    requires
        cursor < byte_len(buf@),
    ensures
        r == delete_edit(buf@, cursor) is Some,
{
    proof {
        lemma_boundary_before_end(buf@, cursor as int);
    }
    is_boundary(buf.as_str(), cursor)
}

/// Whether the address-bar editor can take `key` (see `url_key_outcome`).
fn url_key_runs(state: &DisplayState, key: &str) -> (r: bool)
    ensures
        r == url_key_outcome(state@, key@) is Some,
{
    if str_eq(key, "Enter") || str_eq(key, "Escape") {
        true
    } else if str_eq(key, "Backspace") {
        match state.mode {
            Mode::UrlInput { cursor } => cursor == 0 || backspace_runs(&state.url_buffer, cursor),
            _ => true,
        }
    } else if str_eq(key, "Delete") {
        match state.mode {
            Mode::UrlInput { cursor } => cursor >= string_len(&state.url_buffer) || delete_runs(
                &state.url_buffer,
                cursor,
            ),
            _ => true,
        }
    } else if str_eq(key, "Left") || str_eq(key, "Right") || str_eq(key, "Home") || str_eq(
        key,
        "End",
    ) {
        true
    } else if is_one_byte(key) && !is_url_special(key) {
        match state.mode {
            Mode::UrlInput { cursor } => is_boundary(state.url_buffer.as_str(), cursor),
            _ => true,
        }
    } else {
        true
    }
}

/// Whether the find-bar editor can take `key` (see `find_key_outcome`).
fn find_key_runs(state: &DisplayState, key: &str) -> (r: bool)
    ensures
        r == find_key_outcome(state@, key@) is Some,
{
    if str_eq(key, "Enter") {
        true
    } else if str_eq(key, "Backspace") {
        match state.mode {
            Mode::FindActive { cursor } => cursor == 0 || backspace_runs(&state.find_buffer, cursor),
            _ => true,
        }
    } else if str_eq(key, "Delete") {
        match state.mode {
            Mode::FindActive { cursor } => cursor >= string_len(&state.find_buffer) || delete_runs(
                &state.find_buffer,
                cursor,
            ),
            _ => true,
        }
    } else if str_eq(key, "clear") {
        true
    } else if is_one_byte(key) && !is_find_special(key) {
        match state.mode {
            Mode::FindActive { cursor } => is_boundary(state.find_buffer.as_str(), cursor),
            _ => true,
        }
    } else {
        true
    }
}

/// A boundary before the end names a character of the text.
proof fn lemma_boundary_before_end(buf: Seq<char>, b: int)
    ensures
        char_index_at(buf, b) matches Some(k) ==> (k < buf.len() <==> b < byte_len(buf)),
{
    if char_index_at(buf, b) is Some {
        let k = char_index_at(buf, b)->0;
        lemma_char_index_at_sound(buf, b);
        lemma_byte_len_take_le(buf, k);
        if k == buf.len() {
            assert(buf.take(k) =~= buf);
        }
    }
}

/// Whether `handle_command` can run `cmd` on `state`: false exactly for the
/// edits whose cursor is not on a character boundary of the text they edit.
pub fn command_runs(state: &DisplayState, cmd: &str) -> (r: bool)
    ensures
        forall|p: Option<Seq<TabView>>| r == (#[trigger] command_outcome(state@, cmd@, p) is Some),
{
    if let Some(_) = strip_prefix(cmd, "url_navigate:") {
        true
    } else if let Some(_) = strip_prefix(cmd, "url_set:") {
        true
    } else if str_eq(cmd, "mode:normal") || str_eq(cmd, "mode:url") {
        true
    } else if let Some(key) = strip_prefix(cmd, "url_key:") {
        url_key_runs(state, key)
    } else if let Some(key) = strip_prefix(cmd, "find_key:") {
        find_key_runs(state, key)
    } else {
        true
    }
}

} // verus!

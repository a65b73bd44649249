//! Properties of the client that span several commands or hold of every
//! state: how text editing behaves, what a sequence of commands achieves, and
//! what the input side hands to the interpreter.
use vstd::prelude::*;

use crate::client::{
    event_action, WsAction, WsEvent,
    key_input_outcome, reconnect_plan, url_key_command, KeyView, OutView, MAX_RECONNECT_SECS,
    FRAME_INTERVAL_MILLIS, INITIAL_RECONNECT_SECS,
    server_actions, url_actions, tab_actions, find_status, frame_actions, ActionView,
};
use crate::json::{JsonView, lemma_find_member_distinct};
use crate::screen::{first_active, tab_label, address_drawable, address_prefix, shown_address};
use crate::input::{mouse_action_of, MouseInput, TermButton, TermMouseEvent, TermMouseKind};
use crate::client::{mouse_message, scroll_json, is_tab_digit};
use crate::json::distinct_keys;
use crate::protocol::{i32_json, pointer_members, u32_json, KeyModifiers, ToPayload};
use crate::text::{contains_text, decimal, digit_char, parsed_usize, digits_value, all_digits};
use crate::protocol::types;
use crate::commands::{
    command_outcome, url_key_outcome, find_key_outcome, url_special_key, find_special_key,
    navigation_target, Reply, after,
};
use crate::display::{DisplayView, Mode, TabView, log_after_push, MAX_ERRORS};
use crate::text::{
    byte_len, char_index_at, is_ascii_text, char_width, lemma_ascii_char_index,
    lemma_ascii_byte_len, lemma_char_index_at_sound, lemma_char_index_at_unique,
    lemma_byte_len_insert, lemma_byte_len_remove, lemma_byte_len_take_le, lemma_one_byte,
    lemma_byte_len_concat, lemma_byte_len_push, lemma_char_index_at_take,
};

verus! {

/// A cursor being edited stands within the text it edits.
pub open spec fn cursor_within(s: DisplayView) -> bool {
    match s.mode {
        Mode::UrlInput { cursor } => cursor <= byte_len(s.url_buffer),
        Mode::FindActive { cursor } => cursor <= byte_len(s.find_buffer),
        Mode::Normal => true,
    }
}

/// The address, the address being typed and the find text are ASCII, and a
/// cursor being edited stands within its text.
pub open spec fn ascii_editing(s: DisplayView) -> bool {
    &&& is_ascii_text(s.url)
    &&& is_ascii_text(s.url_buffer)
    &&& is_ascii_text(s.find_buffer)
    &&& cursor_within(s)
}

/// The commands that replace a text under an open editor's cursor: `url_set:`
/// (a new address while the address is being typed) and `find_key:clear`.
pub open spec fn replaces_edited_text(cmd: Seq<char>) -> bool {
    "url_set:"@.is_prefix_of(cmd) || cmd == "find_key:clear"@
}

proof fn lemma_ascii_push_char(s: Seq<char>, k: int, c: char)
    requires
        is_ascii_text(s),
        0 <= k <= s.len(),
        (c as u32) < 0x80,
    ensures
        is_ascii_text(s.insert(k, c)),
{
    assert forall|i: int| 0 <= i < s.insert(k, c).len() implies (#[trigger] s.insert(k, c)[i] as u32)
        < 0x80 by {
        if i < k {
            assert(s.insert(k, c)[i] == s[i]);
        } else if i > k {
            assert(s.insert(k, c)[i] == s[i - 1]);
        }
    }
}

proof fn lemma_ascii_remove(s: Seq<char>, k: int)
    requires
        is_ascii_text(s),
        0 <= k < s.len(),
    ensures
        is_ascii_text(s.remove(k)),
{
    assert forall|i: int| 0 <= i < s.remove(k).len() implies (#[trigger] s.remove(k)[i] as u32)
        < 0x80 by {
        if i < k {
            assert(s.remove(k)[i] == s[i]);
        } else {
            assert(s.remove(k)[i] == s[i + 1]);
        }
    }
}

proof fn lemma_ascii_concat(a: Seq<char>, b: Seq<char>)
    requires
        is_ascii_text(a),
        is_ascii_text(b),
    ensures
        is_ascii_text(a + b),
{
    assert forall|i: int| 0 <= i < (a + b).len() implies (#[trigger] (a + b)[i] as u32) < 0x80 by {
        if i < a.len() {
            assert((a + b)[i] == a[i]);
        } else {
            assert((a + b)[i] == b[i - a.len()]);
        }
    }
}

proof fn lemma_ascii_suffix(s: Seq<char>, n: int)
    requires
        is_ascii_text(s),
        0 <= n <= s.len(),
    ensures
        is_ascii_text(s.skip(n)),
{
    assert forall|i: int| 0 <= i < s.skip(n).len() implies (#[trigger] s.skip(n)[i] as u32) < 0x80 by {
        assert(s.skip(n)[i] == s[i + n]);
    }
}

/// The effect of a backspace on an edited text keeps the cursor within it.
proof fn lemma_backspace_within(buf: Seq<char>, c: usize)
    requires
        c > 0,
        char_index_at(buf, c - 1) matches Some(k) && k < buf.len(),
    ensures
        c - 1 <= byte_len(buf.remove(char_index_at(buf, c - 1)->0)),
{
    let k = char_index_at(buf, c - 1)->0;
    lemma_char_index_at_sound(buf, c - 1);
    lemma_byte_len_remove(buf, k);
    lemma_byte_len_take_le(buf, k);
    assert(buf.remove(k).take(k) == buf.take(k));
    lemma_byte_len_take_le(buf.remove(k), k);
}

proof fn lemma_delete_within(buf: Seq<char>, c: usize)
    requires
        char_index_at(buf, c as int) matches Some(k) && k < buf.len(),
    ensures
        c <= byte_len(buf.remove(char_index_at(buf, c as int)->0)),
{
    let k = char_index_at(buf, c as int)->0;
    lemma_char_index_at_sound(buf, c as int);
    lemma_byte_len_remove(buf, k);
    lemma_byte_len_take_le(buf.remove(k), k);
}

proof fn lemma_insert_within(buf: Seq<char>, c: usize, key: Seq<char>)
    requires
        byte_len(key) == 1,
        char_index_at(buf, c as int) is Some,
    ensures
        c + 1 <= byte_len(buf.insert(char_index_at(buf, c as int)->0, key[0])),
        (key[0] as u32) < 0x80,
{
    lemma_one_byte(key);
    let k = char_index_at(buf, c as int)->0;
    lemma_char_index_at_sound(buf, c as int);
    lemma_byte_len_insert(buf, k, key[0]);
    lemma_byte_len_take_le(buf, k);
}

proof fn lemma_url_key_within(s: DisplayView, key: Seq<char>)
    requires
        cursor_within(s),
        url_key_outcome(s, key) is Some,
    ensures
        cursor_within(url_key_outcome(s, key).unwrap().0),
{
    if key == "Enter"@ || key == "Escape"@ {
    } else if key == "Backspace"@ {
        if let Mode::UrlInput { cursor } = s.mode {
            if cursor > 0 {
                lemma_backspace_within(s.url_buffer, cursor);
            }
        }
    } else if key == "Delete"@ {
        if let Mode::UrlInput { cursor } = s.mode {
            if cursor < byte_len(s.url_buffer) {
                lemma_delete_within(s.url_buffer, cursor);
            }
        }
    } else if key == "Left"@ || key == "Right"@ || key == "Home"@ || key == "End"@ {
    } else if byte_len(key) == 1 && !url_special_key(key) {
        if let Mode::UrlInput { cursor } = s.mode {
            lemma_insert_within(s.url_buffer, cursor, key);
        }
    }
}

proof fn lemma_find_key_within(s: DisplayView, key: Seq<char>)
    requires
        cursor_within(s),
        find_key_outcome(s, key) is Some,
        key != "clear"@,
    ensures
        cursor_within(find_key_outcome(s, key).unwrap().0),
{
    if key == "Enter"@ {
    } else if key == "Backspace"@ {
        if let Mode::FindActive { cursor } = s.mode {
            if cursor > 0 {
                lemma_backspace_within(s.find_buffer, cursor);
            }
        }
    } else if key == "Delete"@ {
        if let Mode::FindActive { cursor } = s.mode {
            if cursor < byte_len(s.find_buffer) {
                lemma_delete_within(s.find_buffer, cursor);
            }
        }
    } else if byte_len(key) == 1 && !find_special_key(key) {
        if let Mode::FindActive { cursor } = s.mode {
            lemma_insert_within(s.find_buffer, cursor, key);
        }
    }
}

proof fn lemma_find_clear_command(cmd: Seq<char>)
    requires
        "find_key:"@.is_prefix_of(cmd),
        after(cmd, "find_key:"@) == "clear"@,
    ensures
        cmd == "find_key:clear"@,
{
    reveal_strlit("find_key:");
    reveal_strlit("clear");
    reveal_strlit("find_key:clear");
    assert(cmd =~= "find_key:"@ + after(cmd, "find_key:"@));
    assert(cmd =~= "find_key:clear"@);
}

/// Every command but those that replace an edited text keeps a cursor being
/// edited within the text it edits.
pub proof fn law_cursor_stays_within_text(
    s: DisplayView,
    cmd: Seq<char>,
    parsed: Option<Seq<TabView>>,
)
    requires
        cursor_within(s),
        !replaces_edited_text(cmd),
        command_outcome(s, cmd, parsed) is Some,
    ensures
        cursor_within(command_outcome(s, cmd, parsed).unwrap().0),
{
    if "url_navigate:"@.is_prefix_of(cmd) || "url_set:"@.is_prefix_of(cmd) || cmd == "mode:normal"@
        || cmd == "mode:url"@ {
    } else if "url_key:"@.is_prefix_of(cmd) {
        lemma_url_key_within(s, after(cmd, "url_key:"@));
    } else if "find_key:"@.is_prefix_of(cmd) {
        if after(cmd, "find_key:"@) == "clear"@ {
            lemma_find_clear_command(cmd);
        }
        lemma_find_key_within(s, after(cmd, "find_key:"@));
    }
}

/// A cursor being edited stands on a character boundary of the text it edits.
pub open spec fn cursor_on_boundary(s: DisplayView) -> bool {
    match s.mode {
        Mode::UrlInput { cursor } => char_index_at(s.url_buffer, cursor as int) is Some,
        Mode::FindActive { cursor } => char_index_at(s.find_buffer, cursor as int) is Some,
        Mode::Normal => true,
    }
}

/// The address-bar cursor moves step one byte whatever character they step
/// over: a move that steps is over a one-byte character.
pub open spec fn steps_over_one_byte(s: DisplayView, cmd: Seq<char>) -> bool {
    match s.mode {
        Mode::UrlInput { cursor } => match char_index_at(s.url_buffer, cursor as int) {
            Some(k) => (cmd == "url_key:Left"@ && k > 0 ==> char_width(s.url_buffer[k - 1]) == 1)
                && (cmd == "url_key:Right"@ && k < s.url_buffer.len() ==> char_width(
                s.url_buffer[k],
            ) == 1),
            None => true,
        },
        _ => true,
    }
}

/// A cursor moved one byte back over a one-byte character stays on a boundary.
proof fn lemma_left_boundary(buf: Seq<char>, c: usize)
    requires
        c > 0,
        char_index_at(buf, c as int) matches Some(k) && (k > 0 ==> char_width(buf[k - 1]) == 1),
    ensures
        char_index_at(buf, c - 1) is Some,
{
    let k = char_index_at(buf, c as int)->0;
    lemma_char_index_at_sound(buf, c as int);
    if k == 0 {
        assert(buf.take(0).len() == 0);
        assert(byte_len(buf.take(0)) == 0);
    }
    assert(buf.take(k) =~= buf.take(k - 1).push(buf[k - 1]));
    lemma_byte_len_push(buf.take(k - 1), buf[k - 1]);
    lemma_char_index_at_unique(buf, c - 1, k - 1);
}

/// A cursor moved one byte on over a one-byte character stays on a boundary.
proof fn lemma_right_boundary(buf: Seq<char>, c: usize)
    requires
        c < byte_len(buf),
        char_index_at(buf, c as int) matches Some(k) && (k < buf.len() ==> char_width(buf[k])
            == 1),
    ensures
        char_index_at(buf, c + 1) is Some,
{
    let k = char_index_at(buf, c as int)->0;
    lemma_char_index_at_sound(buf, c as int);
    if k == buf.len() {
        assert(buf.take(k) =~= buf);
    }
    assert(buf.take(k + 1) =~= buf.take(k).push(buf[k]));
    lemma_byte_len_push(buf.take(k), buf[k]);
    lemma_char_index_at_unique(buf, c + 1, k + 1);
}

/// The texts hold no more bytes than a string can.
pub open spec fn texts_fit(s: DisplayView) -> bool {
    &&& byte_len(s.url) <= isize::MAX
    &&& byte_len(s.url_buffer) <= isize::MAX
    &&& byte_len(s.find_buffer) <= isize::MAX
}

/// The end of a text is a boundary.
proof fn lemma_end_boundary(buf: Seq<char>)
    ensures
        char_index_at(buf, byte_len(buf) as int) == Some(buf.len() as int),
{
    lemma_char_index_at_take(buf, buf.len() as int);
    assert(buf.take(buf.len() as int) =~= buf);
}

/// After a backspace the cursor stands on a boundary of the new text.
proof fn lemma_backspace_boundary(buf: Seq<char>, c: usize)
    requires
        c > 0,
        char_index_at(buf, c - 1) matches Some(k) && k < buf.len(),
    ensures
        char_index_at(buf.remove(char_index_at(buf, c - 1)->0), c - 1) is Some,
{
    let k = char_index_at(buf, c - 1)->0;
    lemma_char_index_at_sound(buf, c - 1);
    lemma_byte_len_remove(buf, k);
    lemma_char_index_at_unique(buf.remove(k), c - 1, k);
}

/// After a delete the cursor stands on a boundary of the new text.
proof fn lemma_delete_boundary(buf: Seq<char>, c: usize)
    requires
        char_index_at(buf, c as int) matches Some(k) && k < buf.len(),
    ensures
        char_index_at(buf.remove(char_index_at(buf, c as int)->0), c as int) is Some,
{
    let k = char_index_at(buf, c as int)->0;
    lemma_char_index_at_sound(buf, c as int);
    lemma_byte_len_remove(buf, k);
    lemma_char_index_at_unique(buf.remove(k), c as int, k);
}

/// After typing a one-byte key the cursor, one byte further, stands on a
/// boundary of the new text.
proof fn lemma_insert_boundary(buf: Seq<char>, c: usize, key: Seq<char>)
    requires
        byte_len(key) == 1,
        char_index_at(buf, c as int) is Some,
    ensures
        char_index_at(buf.insert(char_index_at(buf, c as int)->0, key[0]), c + 1) is Some,
        c <= byte_len(buf),
{
    lemma_one_byte(key);
    let k = char_index_at(buf, c as int)->0;
    let b1 = buf.insert(k, key[0]);
    lemma_char_index_at_sound(buf, c as int);
    lemma_byte_len_take_le(buf, k);
    assert(b1.take(k + 1) =~= buf.take(k).push(key[0]));
    lemma_byte_len_push(buf.take(k), key[0]);
    lemma_char_index_at_unique(b1, c + 1, k + 1);
}

proof fn lemma_url_key_boundary(s: DisplayView, key: Seq<char>)
    requires
        cursor_on_boundary(s),
        texts_fit(s),
        steps_over_one_byte(s, "url_key:"@ + key),
        url_key_outcome(s, key) is Some,
    ensures
        cursor_on_boundary(url_key_outcome(s, key).unwrap().0),
{
    if key == "Enter"@ || key == "Escape"@ {
    } else if key == "Backspace"@ {
        if let Mode::UrlInput { cursor } = s.mode {
            if cursor > 0 {
                lemma_backspace_boundary(s.url_buffer, cursor);
            }
        }
    } else if key == "Delete"@ {
        if let Mode::UrlInput { cursor } = s.mode {
            if cursor < byte_len(s.url_buffer) {
                lemma_delete_boundary(s.url_buffer, cursor);
            }
        }
    } else if key == "Left"@ {
        reveal_strlit("url_key:");
        reveal_strlit("Left");
        reveal_strlit("url_key:Left");
        assert("url_key:"@ + key =~= "url_key:Left"@);
        if let Mode::UrlInput { cursor } = s.mode {
            if cursor > 0 {
                lemma_left_boundary(s.url_buffer, cursor);
            }
        }
    } else if key == "Right"@ {
        reveal_strlit("url_key:");
        reveal_strlit("Right");
        reveal_strlit("url_key:Right");
        assert("url_key:"@ + key =~= "url_key:Right"@);
        if let Mode::UrlInput { cursor } = s.mode {
            if cursor < byte_len(s.url_buffer) {
                lemma_right_boundary(s.url_buffer, cursor);
            }
        }
    } else if key == "Home"@ {
    } else if key == "End"@ {
        lemma_end_boundary(s.url_buffer);
    } else if byte_len(key) == 1 && !url_special_key(key) {
        if let Mode::UrlInput { cursor } = s.mode {
            lemma_insert_boundary(s.url_buffer, cursor, key);
        }
    }
}

proof fn lemma_find_key_boundary(s: DisplayView, key: Seq<char>)
    requires
        cursor_on_boundary(s),
        texts_fit(s),
        key != "clear"@,
        find_key_outcome(s, key) is Some,
    ensures
        cursor_on_boundary(find_key_outcome(s, key).unwrap().0),
{
    if key == "Enter"@ {
    } else if key == "Backspace"@ {
        if let Mode::FindActive { cursor } = s.mode {
            if cursor > 0 {
                lemma_backspace_boundary(s.find_buffer, cursor);
            }
        }
    } else if key == "Delete"@ {
        if let Mode::FindActive { cursor } = s.mode {
            if cursor < byte_len(s.find_buffer) {
                lemma_delete_boundary(s.find_buffer, cursor);
            }
        }
    } else if byte_len(key) == 1 && !find_special_key(key) {
        if let Mode::FindActive { cursor } = s.mode {
            lemma_insert_boundary(s.find_buffer, cursor, key);
        }
    }
}

/// A command made of `p` and then `rest` is `p + rest`.
proof fn lemma_prefixed_command(cmd: Seq<char>, p: Seq<char>, rest: Seq<char>)
    requires
        p.is_prefix_of(cmd),
        after(cmd, p) == rest,
    ensures
        cmd == p + rest,
{
    assert(cmd =~= p + after(cmd, p));
}

/// Every command but those that replace an edited text keeps a cursor being
/// edited on a character boundary of the text it edits; the address-bar
/// cursor moves, which step one byte, do so when they step over a one-byte
/// character.
pub proof fn law_cursor_stays_on_a_boundary(
    s: DisplayView,
    cmd: Seq<char>,
    parsed: Option<Seq<TabView>>,
)
    requires
        cursor_on_boundary(s),
        texts_fit(s),
        !replaces_edited_text(cmd),
        steps_over_one_byte(s, cmd),
        command_outcome(s, cmd, parsed) is Some,
    ensures
        cursor_on_boundary(command_outcome(s, cmd, parsed).unwrap().0),
{
    if "url_navigate:"@.is_prefix_of(cmd) || "url_set:"@.is_prefix_of(cmd) || cmd == "mode:normal"@ {
    } else if cmd == "mode:url"@ {
        lemma_end_boundary(s.url);
    } else if "url_key:"@.is_prefix_of(cmd) {
        let key = after(cmd, "url_key:"@);
        lemma_prefixed_command(cmd, "url_key:"@, key);
        lemma_url_key_boundary(s, key);
    } else if "find_key:"@.is_prefix_of(cmd) {
        if after(cmd, "find_key:"@) == "clear"@ {
            lemma_find_clear_command(cmd);
        }
        lemma_find_key_boundary(s, after(cmd, "find_key:"@));
    }
}

proof fn lemma_ascii_url_key_runs(s: DisplayView, key: Seq<char>)
    requires
        ascii_editing(s),
    ensures
        url_key_outcome(s, key) is Some,
{
    if let Mode::UrlInput { cursor } = s.mode {
        lemma_ascii_byte_len(s.url_buffer);
        lemma_ascii_char_index(s.url_buffer, cursor as int);
        if cursor > 0 {
            lemma_ascii_char_index(s.url_buffer, cursor - 1);
        }
    }
}

proof fn lemma_ascii_find_key_runs(s: DisplayView, key: Seq<char>)
    requires
        ascii_editing(s),
    ensures
        find_key_outcome(s, key) is Some,
{
    if let Mode::FindActive { cursor } = s.mode {
        lemma_ascii_byte_len(s.find_buffer);
        lemma_ascii_char_index(s.find_buffer, cursor as int);
        if cursor > 0 {
            lemma_ascii_char_index(s.find_buffer, cursor - 1);
        }
    }
}

/// While the edited texts are ASCII and the cursor within them, every command
/// can be run.
pub proof fn law_ascii_editing_always_runs(
    s: DisplayView,
    cmd: Seq<char>,
    parsed: Option<Seq<TabView>>,
)
    requires
        ascii_editing(s),
    ensures
        command_outcome(s, cmd, parsed) is Some,
{
    lemma_ascii_url_key_runs(s, after(cmd, "url_key:"@));
    lemma_ascii_find_key_runs(s, after(cmd, "find_key:"@));
}

/// The error log never grows past `MAX_ERRORS` entries, and the newest
/// message is always its last entry.
pub proof fn law_error_log_bounded(log: Seq<Seq<char>>, msg: Seq<char>)
    requires
        log.len() <= MAX_ERRORS,
    ensures
        log_after_push(log, msg).len() <= MAX_ERRORS,
        log_after_push(log, msg).last() == msg,
        log_after_push(log, msg).len() == if log.len() < MAX_ERRORS {
            log.len() + 1
        } else {
            MAX_ERRORS as nat
        },
{
}

/// The wait before reconnecting is never more than `MAX_RECONNECT_SECS`, and
/// never zero once it has started at a positive value.
pub proof fn law_reconnect_wait_bounded(opened: bool, delay: u64)
    requires
        1 <= delay <= MAX_RECONNECT_SECS,
    ensures
        1 <= reconnect_plan(opened, delay).0 <= MAX_RECONNECT_SECS,
        1 <= reconnect_plan(opened, delay).1 <= MAX_RECONNECT_SECS,
        reconnect_plan(opened, delay).1 >= reconnect_plan(opened, delay).0,
{
}

/// Two to the power `n`.
pub open spec fn pow_two(n: nat) -> nat
    decreases n,
{
    if n == 0 {
        1
    } else {
        2 * pow_two((n - 1) as nat)
    }
}

/// The delay in hand after `n` failed connection attempts in a row, counted
/// from the first wait (or from the last connection that opened).
pub open spec fn delay_after_failures(n: nat) -> u64
    decreases n,
{
    if n == 0 {
        INITIAL_RECONNECT_SECS
    } else {
        reconnect_plan(false, delay_after_failures((n - 1) as nat)).1
    }
}

/// The smaller of two numbers.
pub open spec fn min_of(a: nat, b: nat) -> nat {
    if a < b {
        a
    } else {
        b
    }
}

proof fn lemma_delay_after_failures(n: nat)
    ensures
        delay_after_failures(n) == min_of(pow_two(n), MAX_RECONNECT_SECS as nat),
        pow_two(n) >= 1,
    decreases n,
{
    if n > 0 {
        lemma_delay_after_failures((n - 1) as nat);
    }
}

/// In a run of failed connection attempts the `k`-th wait lasts
/// min(2^(k-1), 30) seconds (1, 2, 4, 8, 16, 30, 30, ...); after a connection
/// that opened, the next wait is the first one again and the run starts over.
pub proof fn law_reconnect_waits_double_up_to_the_longest(k: nat, delay: u64)
    requires
        k >= 1,
    ensures
        reconnect_plan(false, delay_after_failures((k - 1) as nat)).0 == min_of(
            pow_two((k - 1) as nat),
            MAX_RECONNECT_SECS as nat,
        ),
        reconnect_plan(false, delay_after_failures((k - 1) as nat)).1 == delay_after_failures(k),
        1 <= delay_after_failures((k - 1) as nat) <= MAX_RECONNECT_SECS,
        reconnect_plan(true, delay) == (delay_after_failures(0), delay_after_failures(1)),
{
    lemma_delay_after_failures((k - 1) as nat);
    lemma_delay_after_failures(1);
}

/// The main loop takes in frames and redraws the screen at least thirty
/// times a second.
pub proof fn law_redraws_at_least_thirty_times_a_second()
    ensures
        30 * FRAME_INTERVAL_MILLIS <= 1000,
{
}

/// A single character is never one of the key names.
proof fn lemma_char_is_no_key_name(c: char)
    ensures
        seq![c] != "Enter"@,
        seq![c] != "Escape"@,
        seq![c] != "Backspace"@,
        seq![c] != "Delete"@,
        seq![c] != "Left"@,
        seq![c] != "Right"@,
        seq![c] != "Home"@,
        seq![c] != "End"@,
        seq![c] != "clear"@,
        !url_special_key(seq![c]),
        !find_special_key(seq![c]),
{
    reveal_strlit("Enter");
    reveal_strlit("Escape");
    reveal_strlit("Backspace");
    reveal_strlit("Delete");
    reveal_strlit("Left");
    reveal_strlit("Right");
    reveal_strlit("Home");
    reveal_strlit("End");
    reveal_strlit("Tab");
    reveal_strlit("Up");
    reveal_strlit("Down");
    reveal_strlit("PageUp");
    reveal_strlit("PageDown");
    reveal_strlit("Insert");
    reveal_strlit("clear");
    assert(seq![c].len() == 1);
    assert("Enter"@.len() == 5);
    assert("Escape"@.len() == 6);
    assert("Backspace"@.len() == 9);
    assert("Delete"@.len() == 6);
    assert("Left"@.len() == 4);
    assert("Right"@.len() == 5);
    assert("Home"@.len() == 4);
    assert("End"@.len() == 3);
    assert("Tab"@.len() == 3);
    assert("Up"@.len() == 2);
    assert("Down"@.len() == 4);
    assert("PageUp"@.len() == 6);
    assert("PageDown"@.len() == 8);
    assert("Insert"@.len() == 6);
    assert("clear"@.len() == 5);
}

/// The key names are told apart.
proof fn lemma_key_names_differ()
    ensures
        "Left"@ != "Enter"@,
        "Left"@ != "Escape"@,
        "Left"@ != "Backspace"@,
        "Left"@ != "Delete"@,
        "Right"@ != "Enter"@,
        "Right"@ != "Escape"@,
        "Right"@ != "Backspace"@,
        "Right"@ != "Delete"@,
        "Right"@ != "Left"@,
        "Backspace"@ != "Enter"@,
        "Backspace"@ != "Escape"@,
        "Escape"@ != "Enter"@,
        "Enter"@ != "c"@,
        "Escape"@ != "c"@,
{
    reveal_strlit("Enter");
    reveal_strlit("Escape");
    reveal_strlit("Backspace");
    reveal_strlit("Delete");
    reveal_strlit("Left");
    reveal_strlit("Right");
    reveal_strlit("c");
    assert("Enter"@.len() == 5);
    assert("Escape"@.len() == 6);
    assert("Backspace"@.len() == 9);
    assert("Delete"@.len() == 6);
    assert("Left"@.len() == 4);
    assert("Right"@.len() == 5);
    assert("c"@.len() == 1);
    assert("Right"@[0] != "Enter"@[0]);
    assert("Escape"@.len() != "c"@.len());
}

proof fn lemma_one_ascii_char(c: char)
    requires
        (c as u32) < 0x80,
    ensures
        byte_len(seq![c]) == 1,
        seq![c][0] == c,
{
    assert(seq![c].drop_first() =~= Seq::<char>::empty());
    assert(byte_len(seq![c]) == char_width(c) + byte_len(Seq::<char>::empty()));
}

/// An address-bar key command reaches the address-bar editor.
pub proof fn lemma_url_key_command(s: DisplayView, key: Seq<char>, parsed: Option<Seq<TabView>>)
    ensures
        command_outcome(s, "url_key:"@ + key, parsed) == url_key_outcome(s, key),
{
    reveal_strlit("url_key:");
    reveal_strlit("url_navigate:");
    reveal_strlit("url_set:");
    reveal_strlit("mode:normal");
    reveal_strlit("mode:url");
    let cmd = "url_key:"@ + key;
    assert(cmd[0] == 'u' && cmd[4] == 'k');
    assert(!"url_navigate:"@.is_prefix_of(cmd)) by {
        if "url_navigate:"@.is_prefix_of(cmd) {
            assert("url_navigate:"@[4] == cmd.subrange(0, 13)[4]);
        }
    }
    assert(!"url_set:"@.is_prefix_of(cmd)) by {
        if "url_set:"@.is_prefix_of(cmd) {
            assert("url_set:"@[4] == cmd.subrange(0, 8)[4]);
        }
    }
    assert(cmd != "mode:normal"@) by {
        if cmd == "mode:normal"@ {
            assert("mode:normal"@[0] == 'm');
        }
    }
    assert(cmd != "mode:url"@) by {
        if cmd == "mode:url"@ {
            assert("mode:url"@[0] == 'm');
        }
    }
    assert("url_key:"@.is_prefix_of(cmd)) by {
        assert(cmd.subrange(0, 8) =~= "url_key:"@);
    }
    assert(after(cmd, "url_key:"@) =~= key);
}

/// A find-bar key command reaches the find-bar editor.
pub proof fn lemma_find_key_command(s: DisplayView, key: Seq<char>, parsed: Option<Seq<TabView>>)
    ensures
        command_outcome(s, "find_key:"@ + key, parsed) == find_key_outcome(s, key),
{
    reveal_strlit("find_key:");
    reveal_strlit("url_key:");
    reveal_strlit("url_navigate:");
    reveal_strlit("url_set:");
    reveal_strlit("mode:normal");
    reveal_strlit("mode:url");
    let cmd = "find_key:"@ + key;
    assert(cmd[0] == 'f');
    assert(!"url_navigate:"@.is_prefix_of(cmd)) by {
        if "url_navigate:"@.is_prefix_of(cmd) {
            assert("url_navigate:"@[0] == cmd.subrange(0, 13)[0]);
        }
    }
    assert(!"url_set:"@.is_prefix_of(cmd)) by {
        if "url_set:"@.is_prefix_of(cmd) {
            assert("url_set:"@[0] == cmd.subrange(0, 8)[0]);
        }
    }
    assert(!"url_key:"@.is_prefix_of(cmd)) by {
        if "url_key:"@.is_prefix_of(cmd) {
            assert("url_key:"@[0] == cmd.subrange(0, 8)[0]);
        }
    }
    assert(cmd != "mode:normal"@) by {
        if cmd == "mode:normal"@ {
            assert("mode:normal"@[0] == 'm');
        }
    }
    assert(cmd != "mode:url"@) by {
        if cmd == "mode:url"@ {
            assert("mode:url"@[0] == 'm');
        }
    }
    assert("find_key:"@.is_prefix_of(cmd)) by {
        assert(cmd.subrange(0, 9) =~= "find_key:"@);
    }
    assert(after(cmd, "find_key:"@) =~= key);
}

/// Typing a character in the address bar and pressing backspace leaves the
/// display as it was.
pub proof fn law_url_backspace_undoes_typing(s: DisplayView, key: Seq<char>)
    requires
        s.mode matches Mode::UrlInput { cursor } && char_index_at(s.url_buffer, cursor as int) is Some,
        byte_len(s.url_buffer) <= isize::MAX,
        byte_len(key) == 1,
    ensures
        url_key_outcome(s, key) matches Some((s1, r1)) && r1 == Reply::Nothing
            && url_key_outcome(s1, "Backspace"@) == Some((s, Reply::Nothing)),
{
    lemma_one_byte(key);
    assert(key =~= seq![key[0]]);
    lemma_char_is_no_key_name(key[0]);
    lemma_key_names_differ();
    let cursor = s.mode->UrlInput_cursor;
    let buf = s.url_buffer;
    let k = char_index_at(buf, cursor as int)->0;
    lemma_char_index_at_sound(buf, cursor as int);
    lemma_byte_len_insert(buf, k, key[0]);
    lemma_byte_len_take_le(buf, k);
    let b1 = buf.insert(k, key[0]);
    lemma_char_index_at_unique(b1, cursor as int, k);
    let s1 = url_key_outcome(s, key).unwrap().0;
    assert(s1.url_buffer == b1);
    assert(url_key_outcome(s1, "Backspace"@).unwrap().0 =~= s);
}

/// Typing a character in the find bar and pressing backspace leaves the
/// display as it was.
pub proof fn law_find_backspace_undoes_typing(s: DisplayView, key: Seq<char>)
    requires
        s.mode matches Mode::FindActive { cursor } && char_index_at(s.find_buffer, cursor as int)
            is Some,
        byte_len(s.find_buffer) <= isize::MAX,
        byte_len(key) == 1,
    ensures
        find_key_outcome(s, key) matches Some((s1, r1)) && r1 == Reply::Nothing
            && find_key_outcome(s1, "Backspace"@) == Some((s, Reply::Nothing)),
{
    lemma_one_byte(key);
    assert(key =~= seq![key[0]]);
    lemma_char_is_no_key_name(key[0]);
    lemma_key_names_differ();
    let cursor = s.mode->FindActive_cursor;
    let buf = s.find_buffer;
    let k = char_index_at(buf, cursor as int)->0;
    lemma_char_index_at_sound(buf, cursor as int);
    lemma_byte_len_insert(buf, k, key[0]);
    lemma_byte_len_take_le(buf, k);
    let b1 = buf.insert(k, key[0]);
    lemma_char_index_at_unique(b1, cursor as int, k);
    let s1 = find_key_outcome(s, key).unwrap().0;
    assert(s1.find_buffer == b1);
    assert(find_key_outcome(s1, "Backspace"@).unwrap().0 =~= s);
}

/// In the address bar, moving the cursor left and then right, or right and
/// then left, brings it back where it was.
pub proof fn law_url_cursor_moves_are_inverse(s: DisplayView)
    requires
        s.mode matches Mode::UrlInput { cursor } && cursor <= byte_len(s.url_buffer),
        byte_len(s.url_buffer) <= isize::MAX,
    ensures
        s.mode->UrlInput_cursor > 0 ==> url_key_outcome(url_key_outcome(s, "Left"@).unwrap().0, "Right"@)
            == Some((s, Reply::Nothing)),
        s.mode->UrlInput_cursor < byte_len(s.url_buffer) ==> url_key_outcome(
            url_key_outcome(s, "Right"@).unwrap().0,
            "Left"@,
        ) == Some((s, Reply::Nothing)),
{
    lemma_key_names_differ();
    reveal_strlit("Home");
    reveal_strlit("End");
    reveal_strlit("Left");
    reveal_strlit("Right");
    if s.mode->UrlInput_cursor > 0 {
        assert(url_key_outcome(url_key_outcome(s, "Left"@).unwrap().0, "Right"@).unwrap().0 =~= s);
    }
    if s.mode->UrlInput_cursor < byte_len(s.url_buffer) {
        assert(url_key_outcome(url_key_outcome(s, "Right"@).unwrap().0, "Left"@).unwrap().0 =~= s);
    }
}

/// The state after running `cmds` in order from `s` (no tab list parsed),
/// with the reply of each; `None` if one of them cannot run.
pub open spec fn run_commands(s: DisplayView, cmds: Seq<Seq<char>>) -> Option<
    (DisplayView, Seq<Reply>),
>
    decreases cmds.len(),
{
    if cmds.len() == 0 {
        Some((s, Seq::empty()))
    } else {
        match command_outcome(s, cmds[0], None) {
            Some((s1, r)) => match run_commands(s1, cmds.drop_first()) {
                Some((s2, rs)) => Some((s2, seq![r] + rs)),
                None => None,
            },
            None => None,
        }
    }
}

/// The address-bar key commands that type `t`, one character each.
pub open spec fn url_typing(t: Seq<char>) -> Seq<Seq<char>> {
    Seq::new(t.len(), |i: int| "url_key:"@ + seq![t[i]])
}

/// The find-bar key commands that type `t`, one character each.
pub open spec fn find_typing(t: Seq<char>) -> Seq<Seq<char>> {
    Seq::new(t.len(), |i: int| "find_key:"@ + seq![t[i]])
}

pub proof fn lemma_run_one(s: DisplayView, cmd: Seq<char>)
    ensures
        run_commands(s, seq![cmd]) == match command_outcome(s, cmd, None) {
            Some((s1, r)) => Some((s1, seq![r])),
            None => None,
        },
{
    let one = seq![cmd];
    assert(one.drop_first() =~= Seq::<Seq<char>>::empty());
    assert(run_commands(s, one.drop_first()) == Some((s, Seq::<Reply>::empty())));
    match command_outcome(s, cmd, None) {
        Some((s1, r)) => {
            assert(run_commands(s1, one.drop_first()) == Some((s1, Seq::<Reply>::empty())));
            assert(seq![r] + Seq::<Reply>::empty() =~= seq![r]);
        },
        None => {},
    }
}

pub proof fn lemma_run_concat(s: DisplayView, a: Seq<Seq<char>>, b: Seq<Seq<char>>)
    ensures
        run_commands(s, a + b) == match run_commands(s, a) {
            Some((s1, r1)) => match run_commands(s1, b) {
                Some((s2, r2)) => Some((s2, r1 + r2)),
                None => None,
            },
            None => None,
        },
    decreases a.len(),
{
    if a.len() == 0 {
        assert(a + b =~= b);
        match run_commands(s, b) {
            Some((s2, r2)) => {
                assert(Seq::<Reply>::empty() + r2 =~= r2);
            },
            None => {},
        }
    } else {
        assert((a + b)[0] == a[0]);
        assert((a + b).drop_first() =~= a.drop_first() + b);
        match command_outcome(s, a[0], None) {
            Some((s1, r)) => {
                lemma_run_concat(s1, a.drop_first(), b);
                match run_commands(s1, a.drop_first()) {
                    Some((s2, r2)) => {
                        match run_commands(s2, b) {
                            Some((s3, r3)) => {
                                assert(seq![r] + (r2 + r3) =~= (seq![r] + r2) + r3);
                            },
                            None => {},
                        }
                    },
                    None => {},
                }
            },
            None => {},
        }
    }
}

proof fn lemma_ascii_prefix_push(b: Seq<char>, c: char)
    requires
        is_ascii_text(b),
        (c as u32) < 0x80,
    ensures
        is_ascii_text(b.push(c)),
        char_index_at(b, byte_len(b) as int) == Some(b.len() as int),
        b.insert(b.len() as int, c) == b.push(c),
{
    lemma_ascii_push_char(b, b.len() as int, c);
    assert(b.insert(b.len() as int, c) =~= b.push(c));
    crate::text::lemma_char_index_at_take(b, b.len() as int);
    assert(b.take(b.len() as int) =~= b);
}

/// Typing ASCII text at the end of an ASCII address being typed appends it.
proof fn lemma_url_typing(s: DisplayView, t: Seq<char>)
    requires
        is_ascii_text(s.url_buffer),
        s.mode == (Mode::UrlInput { cursor: s.url_buffer.len() as usize }),
        is_ascii_text(t),
        s.url_buffer.len() + t.len() <= isize::MAX,
    ensures
        run_commands(s, url_typing(t)) matches Some((s2, rs)) && s2 == (DisplayView {
            url_buffer: s.url_buffer + t,
            mode: Mode::UrlInput { cursor: (s.url_buffer.len() + t.len()) as usize },
            ..s
        }) && rs.len() == t.len(),
    decreases t.len(),
{
    if t.len() == 0 {
        assert(url_typing(t) =~= Seq::<Seq<char>>::empty());
        assert(s.url_buffer + t =~= s.url_buffer);
    } else {
        let c = t[0];
        let b = s.url_buffer;
        assert((t[0] as u32) < 0x80);
        lemma_one_ascii_char(c);
        lemma_char_is_no_key_name(c);
        lemma_url_key_command(s, seq![c], None);
        lemma_ascii_byte_len(b);
        lemma_ascii_prefix_push(b, c);
        assert(url_typing(t)[0] == "url_key:"@ + seq![c]);
        let s1 = DisplayView {
            url_buffer: b.push(c),
            mode: Mode::UrlInput { cursor: (b.len() + 1) as usize },
            ..s
        };
        assert(url_key_outcome(s, seq![c]) == Some((s1, Reply::Nothing)));
        let rest = t.drop_first();
        lemma_ascii_suffix(t, 1);
        assert(rest =~= t.skip(1));
        lemma_url_typing(s1, rest);
        assert(url_typing(t).drop_first() =~= url_typing(rest));
        assert(b.push(c) + rest =~= b + t);
        let s2 = run_commands(s1, url_typing(rest)).unwrap().0;
        assert(s2 =~= (DisplayView {
            url_buffer: s.url_buffer + t,
            mode: Mode::UrlInput { cursor: (s.url_buffer.len() + t.len()) as usize },
            ..s
        }));
    }
}

/// Typing ASCII text at the end of an ASCII find text appends it.
proof fn lemma_find_typing(s: DisplayView, t: Seq<char>)
    requires
        is_ascii_text(s.find_buffer),
        s.mode == (Mode::FindActive { cursor: s.find_buffer.len() as usize }),
        is_ascii_text(t),
        s.find_buffer.len() + t.len() <= isize::MAX,
    ensures
        run_commands(s, find_typing(t)) matches Some((s2, rs)) && s2 == (DisplayView {
            find_buffer: s.find_buffer + t,
            mode: Mode::FindActive { cursor: (s.find_buffer.len() + t.len()) as usize },
            ..s
        }) && rs.len() == t.len(),
    decreases t.len(),
{
    if t.len() == 0 {
        assert(find_typing(t) =~= Seq::<Seq<char>>::empty());
        assert(s.find_buffer + t =~= s.find_buffer);
    } else {
        let c = t[0];
        let b = s.find_buffer;
        assert((t[0] as u32) < 0x80);
        lemma_one_ascii_char(c);
        lemma_char_is_no_key_name(c);
        lemma_find_key_command(s, seq![c], None);
        lemma_ascii_byte_len(b);
        lemma_ascii_prefix_push(b, c);
        assert(find_typing(t)[0] == "find_key:"@ + seq![c]);
        let s1 = DisplayView {
            find_buffer: b.push(c),
            mode: Mode::FindActive { cursor: (b.len() + 1) as usize },
            ..s
        };
        assert(find_key_outcome(s, seq![c]) == Some((s1, Reply::Nothing)));
        let rest = t.drop_first();
        lemma_ascii_suffix(t, 1);
        assert(rest =~= t.skip(1));
        lemma_find_typing(s1, rest);
        assert(find_typing(t).drop_first() =~= find_typing(rest));
        assert(b.push(c) + rest =~= b + t);
        let s2 = run_commands(s1, find_typing(rest)).unwrap().0;
        assert(s2 =~= (DisplayView {
            find_buffer: s.find_buffer + t,
            mode: Mode::FindActive { cursor: (s.find_buffer.len() + t.len()) as usize },
            ..s
        }));
    }
}

proof fn lemma_mode_url_command(s: DisplayView)
    ensures
        command_outcome(s, "mode:url"@, None) == Some(
            (
                DisplayView {
                    url_buffer: s.url,
                    mode: Mode::UrlInput { cursor: byte_len(s.url) as usize },
                    ..s
                },
                Reply::Nothing,
            ),
        ),
{
    reveal_strlit("mode:url");
    reveal_strlit("url_navigate:");
    reveal_strlit("url_set:");
    reveal_strlit("mode:normal");
    assert(!"url_navigate:"@.is_prefix_of("mode:url"@)) by {
        if "url_navigate:"@.is_prefix_of("mode:url"@) {
            assert("url_navigate:"@.len() <= "mode:url"@.len());
        }
    }
    assert(!"url_set:"@.is_prefix_of("mode:url"@)) by {
        if "url_set:"@.is_prefix_of("mode:url"@) {
            assert("url_set:"@[0] == "mode:url"@.subrange(0, 8)[0]);
        }
    }
    assert("mode:url"@ != "mode:normal"@) by {
        assert("mode:url"@.len() != "mode:normal"@.len());
    }
}

proof fn lemma_mode_find_command(s: DisplayView)
    ensures
        command_outcome(s, "mode:find"@, None) == Some(
            (
                DisplayView { mode: Mode::FindActive { cursor: 0 }, find_buffer: Seq::empty(), ..s },
                Reply::Nothing,
            ),
        ),
{
    reveal_strlit("mode:find");
    reveal_strlit("url_navigate:");
    reveal_strlit("url_set:");
    reveal_strlit("mode:normal");
    reveal_strlit("mode:url");
    reveal_strlit("url_key:");
    reveal_strlit("find_key:");
    let cmd = "mode:find"@;
    assert(!"url_navigate:"@.is_prefix_of(cmd)) by {
        if "url_navigate:"@.is_prefix_of(cmd) {
            assert("url_navigate:"@.len() <= cmd.len());
        }
    }
    assert(!"url_set:"@.is_prefix_of(cmd)) by {
        if "url_set:"@.is_prefix_of(cmd) {
            assert("url_set:"@[0] == cmd.subrange(0, 8)[0]);
        }
    }
    assert(!"url_key:"@.is_prefix_of(cmd)) by {
        if "url_key:"@.is_prefix_of(cmd) {
            assert("url_key:"@[0] == cmd.subrange(0, 8)[0]);
        }
    }
    assert(!"find_key:"@.is_prefix_of(cmd)) by {
        if "find_key:"@.is_prefix_of(cmd) {
            assert("find_key:"@[0] == cmd.subrange(0, 9)[0]);
        }
    }
    assert(cmd != "mode:normal"@) by {
        assert(cmd.len() != "mode:normal"@.len());
    }
    assert(cmd != "mode:url"@) by {
        assert(cmd.len() != "mode:url"@.len());
    }
    assert("mode:find"@.is_prefix_of(cmd)) by {
        assert(cmd.subrange(0, 9) =~= cmd);
    }
}

/// Opening the address bar, typing text and pressing Enter goes to the
/// address made of the page's address followed by the text (over https
/// unless it names a scheme), and closes the address bar.
pub proof fn law_typed_address_is_visited(s: DisplayView, t: Seq<char>)
    requires
        is_ascii_text(s.url),
        is_ascii_text(t),
        s.url.len() + t.len() <= isize::MAX,
    ensures
        run_commands(s, seq!["mode:url"@] + url_typing(t) + seq!["url_key:Enter"@]) matches Some(
            (s2, replies),
        ) && replies.last() == Reply::Navigate(navigation_target(s.url + t)) && s2.url
            == navigation_target(s.url + t) && s2.mode == Mode::Normal && s2.url_buffer.len() == 0,
{
    lemma_mode_url_command(s);
    lemma_ascii_byte_len(s.url);
    let s1 = command_outcome(s, "mode:url"@, None).unwrap().0;
    lemma_run_one(s, "mode:url"@);
    lemma_url_typing(s1, t);
    let s2 = run_commands(s1, url_typing(t)).unwrap().0;
    let r2 = run_commands(s1, url_typing(t)).unwrap().1;
    reveal_strlit("url_key:Enter");
    reveal_strlit("url_key:");
    reveal_strlit("Enter");
    assert("url_key:Enter"@ =~= "url_key:"@ + "Enter"@);
    lemma_url_key_command(s2, "Enter"@, None);
    let nav = navigation_target(s.url + t);
    let s3 = url_key_outcome(s2, "Enter"@).unwrap().0;
    lemma_run_one(s2, "url_key:Enter"@);
    lemma_run_concat(s, seq!["mode:url"@], url_typing(t));
    lemma_run_concat(s, seq!["mode:url"@] + url_typing(t), seq!["url_key:Enter"@]);
    let all = seq![Reply::Nothing] + r2 + seq![Reply::Navigate(nav)];
    assert(all.last() == Reply::Navigate(nav));
}

/// Opening the find bar, typing some text and pressing Enter searches the
/// page for that text and closes the find bar.
pub proof fn law_typed_text_is_searched(s: DisplayView, t: Seq<char>)
    requires
        is_ascii_text(t),
        0 < t.len() <= isize::MAX,
    ensures
        run_commands(s, seq!["mode:find"@] + find_typing(t) + seq!["find_key:Enter"@]) matches Some(
            (s2, replies),
        ) && replies.last() == Reply::FindInPage(t) && s2.mode == Mode::Normal
            && s2.find_buffer.len() == 0,
{
    lemma_mode_find_command(s);
    let s1 = command_outcome(s, "mode:find"@, None).unwrap().0;
    assert(s1.find_buffer + t =~= t);
    assert(is_ascii_text(s1.find_buffer));
    lemma_run_one(s, "mode:find"@);
    lemma_find_typing(s1, t);
    let s2 = run_commands(s1, find_typing(t)).unwrap().0;
    let r2 = run_commands(s1, find_typing(t)).unwrap().1;
    reveal_strlit("find_key:Enter");
    reveal_strlit("find_key:");
    reveal_strlit("Enter");
    assert("find_key:Enter"@ =~= "find_key:"@ + "Enter"@);
    lemma_find_key_command(s2, "Enter"@, None);
    let s3 = find_key_outcome(s2, "Enter"@).unwrap().0;
    lemma_run_one(s2, "find_key:Enter"@);
    lemma_run_concat(s, seq!["mode:find"@], find_typing(t));
    lemma_run_concat(s, seq!["mode:find"@] + find_typing(t), seq!["find_key:Enter"@]);
    let all = seq![Reply::Nothing] + r2 + seq![Reply::FindInPage(t)];
    assert(all.last() == Reply::FindInPage(t));
}

proof fn lemma_ascii_url_key_keeps_ascii(s: DisplayView, key: Seq<char>)
    requires
        ascii_editing(s),
        url_key_outcome(s, key) is Some,
    ensures
        is_ascii_text(url_key_outcome(s, key).unwrap().0.url),
        is_ascii_text(url_key_outcome(s, key).unwrap().0.url_buffer),
        url_key_outcome(s, key).unwrap().0.find_buffer == s.find_buffer,
{
    let next = url_key_outcome(s, key).unwrap().0;
    if key == "Enter"@ {
        reveal_strlit("https://");
        assert(is_ascii_text("https://"@)) by {
            assert forall|i: int| 0 <= i < "https://"@.len() implies (#[trigger] "https://"@[i] as u32)
                < 0x80 by {}
        }
        lemma_ascii_concat("https://"@, s.url_buffer);
        assert(is_ascii_text(Seq::<char>::empty()));
    } else if key == "Escape"@ {
        assert(is_ascii_text(Seq::<char>::empty()));
    } else if key == "Backspace"@ {
        if let Mode::UrlInput { cursor } = s.mode {
            if cursor > 0 {
                let k = char_index_at(s.url_buffer, cursor - 1)->0;
                lemma_char_index_at_sound(s.url_buffer, cursor - 1);
                lemma_ascii_remove(s.url_buffer, k);
            }
        }
    } else if key == "Delete"@ {
        if let Mode::UrlInput { cursor } = s.mode {
            if cursor < byte_len(s.url_buffer) {
                let k = char_index_at(s.url_buffer, cursor as int)->0;
                lemma_char_index_at_sound(s.url_buffer, cursor as int);
                lemma_ascii_remove(s.url_buffer, k);
            }
        }
    } else if key == "Left"@ || key == "Right"@ || key == "Home"@ || key == "End"@ {
    } else if byte_len(key) == 1 && !url_special_key(key) {
        if let Mode::UrlInput { cursor } = s.mode {
            lemma_one_byte(key);
            let k = char_index_at(s.url_buffer, cursor as int)->0;
            lemma_char_index_at_sound(s.url_buffer, cursor as int);
            lemma_ascii_push_char(s.url_buffer, k, key[0]);
        }
    }
}

proof fn lemma_ascii_find_key_keeps_ascii(s: DisplayView, key: Seq<char>)
    requires
        ascii_editing(s),
        find_key_outcome(s, key) is Some,
    ensures
        is_ascii_text(find_key_outcome(s, key).unwrap().0.find_buffer),
        find_key_outcome(s, key).unwrap().0.url == s.url,
        find_key_outcome(s, key).unwrap().0.url_buffer == s.url_buffer,
{
    let next = find_key_outcome(s, key).unwrap().0;
    if key == "Enter"@ || key == "clear"@ {
        reveal_strlit("clear");
        reveal_strlit("Backspace");
        reveal_strlit("Delete");
        assert("clear"@.len() != "Backspace"@.len() && "clear"@.len() != "Delete"@.len());
        assert(next.find_buffer =~= Seq::<char>::empty());
    } else if key == "Backspace"@ {
        if let Mode::FindActive { cursor } = s.mode {
            if cursor > 0 {
                let k = char_index_at(s.find_buffer, cursor - 1)->0;
                lemma_char_index_at_sound(s.find_buffer, cursor - 1);
                lemma_ascii_remove(s.find_buffer, k);
            }
        }
    } else if key == "Delete"@ {
        if let Mode::FindActive { cursor } = s.mode {
            if cursor < byte_len(s.find_buffer) {
                let k = char_index_at(s.find_buffer, cursor as int)->0;
                lemma_char_index_at_sound(s.find_buffer, cursor as int);
                lemma_ascii_remove(s.find_buffer, k);
            }
        }
    } else if byte_len(key) == 1 && !find_special_key(key) {
        if let Mode::FindActive { cursor } = s.mode {
            lemma_one_byte(key);
            let k = char_index_at(s.find_buffer, cursor as int)->0;
            lemma_char_index_at_sound(s.find_buffer, cursor as int);
            lemma_ascii_push_char(s.find_buffer, k, key[0]);
        }
    }
}

/// ASCII commands keep an ASCII display ASCII, with cursors within their
/// texts, except those that replace an edited text; so from such a display
/// every such command can run (see `law_ascii_editing_always_runs`).
pub proof fn law_ascii_editing_is_kept(s: DisplayView, cmd: Seq<char>, parsed: Option<Seq<TabView>>)
    requires
        ascii_editing(s),
        is_ascii_text(cmd),
        !replaces_edited_text(cmd),
    ensures
        command_outcome(s, cmd, parsed) matches Some((next, _)) && ascii_editing(next),
{
    law_ascii_editing_always_runs(s, cmd, parsed);
    law_cursor_stays_within_text(s, cmd, parsed);
    if "url_navigate:"@.is_prefix_of(cmd) {
        lemma_ascii_suffix(cmd, "url_navigate:"@.len() as int);
        assert(is_ascii_text(Seq::<char>::empty()));
    } else if "url_set:"@.is_prefix_of(cmd) {
    } else if cmd == "mode:normal"@ || cmd == "mode:url"@ {
    } else if "url_key:"@.is_prefix_of(cmd) {
        lemma_ascii_url_key_keeps_ascii(s, after(cmd, "url_key:"@));
    } else if "find_key:"@.is_prefix_of(cmd) {
        lemma_ascii_find_key_keeps_ascii(s, after(cmd, "find_key:"@));
    } else if "mode:find"@.is_prefix_of(cmd) {
        assert(is_ascii_text(Seq::<char>::empty()));
    }
}

/// A character typed while the address bar is open is handed to the
/// interpreter as an address-bar key command, which types it there.
pub proof fn law_address_keys_reach_the_editor(
    mode: Mode,
    k: KeyView,
    s: DisplayView,
    parsed: Option<Seq<TabView>>,
)
    requires
        mode is UrlInput,
        !k.ctrl,
        !k.alt,
        !k.is_special,
        byte_len(k.key) == 1,
    ensures
        key_input_outcome(mode, k) == (false, mode, seq![OutView::Command("url_key:"@ + k.key)]),
        command_outcome(s, "url_key:"@ + k.key, parsed) == url_key_outcome(s, k.key),
{
    lemma_one_byte(k.key);
    assert(k.key =~= seq![k.key[0]]);
    lemma_char_is_no_key_name(k.key[0]);
    lemma_url_key_command(s, k.key, parsed);
}

/// A character typed while the find bar is open is handed to the interpreter
/// as a find-bar key command, which types it there.
pub proof fn law_find_keys_reach_the_editor(
    mode: Mode,
    k: KeyView,
    s: DisplayView,
    parsed: Option<Seq<TabView>>,
)
    requires
        mode is FindActive,
        !k.ctrl,
        !k.alt,
        !k.is_special,
        byte_len(k.key) == 1,
    ensures
        key_input_outcome(mode, k) == (false, mode, seq![OutView::Command("find_key:"@ + k.key)]),
        command_outcome(s, "find_key:"@ + k.key, parsed) == find_key_outcome(s, k.key),
{
    lemma_one_byte(k.key);
    assert(k.key =~= seq![k.key[0]]);
    lemma_char_is_no_key_name(k.key[0]);
    lemma_find_key_command(s, k.key, parsed);
}

proof fn lemma_shortcut_keys()
    ensures
        "l"@ != "c"@,
        "f"@ != "c"@,
        "f"@ != "l"@,
        "f"@ != "r"@,
        "f"@ != "t"@,
        "f"@ != "w"@,
{
    reveal_strlit("l");
    reveal_strlit("c");
    reveal_strlit("f");
    reveal_strlit("r");
    reveal_strlit("t");
    reveal_strlit("w");
    assert("l"@[0] != "c"@[0]);
    assert("f"@[0] != "c"@[0]);
    assert("f"@[0] != "l"@[0]);
    assert("f"@[0] != "r"@[0]);
    assert("f"@[0] != "t"@[0]);
    assert("f"@[0] != "w"@[0]);
}

/// Control-L opens the address bar and control-F the find bar: the input
/// task records the new mode, and the command it sends opens the same
/// editor in the interpreter.
pub proof fn law_shortcuts_open_editors_on_both_sides(s: DisplayView, k: KeyView)
    requires
        k.ctrl,
    ensures
        k.key == "l"@ ==> key_input_outcome(Mode::Normal, k) == (
            false,
            Mode::UrlInput { cursor: 0 },
            seq![OutView::Command("mode:url"@)],
        ) && command_outcome(s, "mode:url"@, None).unwrap().0.mode is UrlInput,
        k.key == "f"@ ==> key_input_outcome(Mode::Normal, k) == (
            false,
            Mode::FindActive { cursor: 0 },
            seq![OutView::Command("mode:find"@)],
        ) && command_outcome(s, "mode:find"@, None).unwrap().0.mode is FindActive,
{
    lemma_shortcut_keys();
    lemma_mode_url_command(s);
    lemma_mode_find_command(s);
}

/// Control-W and control-T in normal mode act on the client alone: the input
/// task sends nothing to the server and stays in normal mode.
pub proof fn law_ctrl_w_and_ctrl_t_stay_local(k: KeyView)
    requires
        k.ctrl,
        k.key == "w"@ || k.key == "t"@,
    ensures
        key_input_outcome(Mode::Normal, k) == (false, Mode::Normal, Seq::<OutView>::empty()),
{
    reveal_strlit("w");
    reveal_strlit("t");
    reveal_strlit("c");
    reveal_strlit("l");
    reveal_strlit("r");
    assert("w"@[0] != "c"@[0] && "w"@[0] != "l"@[0] && "w"@[0] != "r"@[0]);
    assert("t"@[0] != "c"@[0] && "t"@[0] != "l"@[0] && "t"@[0] != "r"@[0]);
}

proof fn lemma_mode_normal_command(s: DisplayView)
    ensures
        command_outcome(s, "mode:normal"@, None) == Some(
            (DisplayView { mode: Mode::Normal, ..s }, Reply::Nothing),
        ),
{
    reveal_strlit("mode:normal");
    reveal_strlit("url_navigate:");
    reveal_strlit("url_set:");
    assert(!"url_navigate:"@.is_prefix_of("mode:normal"@)) by {
        if "url_navigate:"@.is_prefix_of("mode:normal"@) {
            assert("url_navigate:"@.len() <= "mode:normal"@.len());
        }
    }
    assert(!"url_set:"@.is_prefix_of("mode:normal"@)) by {
        if "url_set:"@.is_prefix_of("mode:normal"@) {
            assert("url_set:"@[0] == "mode:normal"@.subrange(0, 8)[0]);
        }
    }
}

/// Enter and Escape close the address bar on both sides: the input task
/// goes back to normal mode and the commands it sends leave the interpreter
/// in normal mode; Enter also visits the typed address.
pub proof fn law_enter_and_escape_close_the_address_bar(s: DisplayView, k: KeyView)
    requires
        k.is_special,
        k.key == "Enter"@ || k.key == "Escape"@,
        s.mode is UrlInput,
    ensures
        ({
            let (quit, next_mode, out) = key_input_outcome(s.mode, k);
            &&& !quit
            &&& next_mode == Mode::Normal
            &&& out == seq![
                OutView::Command("url_key:"@ + k.key),
                OutView::Command("mode:normal"@),
            ]
        }),
        run_commands(s, seq!["url_key:"@ + k.key, "mode:normal"@]) matches Some((next, replies))
            && next.mode == Mode::Normal && next.url_buffer.len() == 0 && (k.key == "Enter"@
            ==> replies[0] == Reply::Navigate(navigation_target(s.url_buffer))),
{
    lemma_key_names_differ();
    lemma_url_key_command(s, k.key, None);
    let s1 = url_key_outcome(s, k.key).unwrap().0;
    lemma_mode_normal_command(s1);
    let cmds = seq!["url_key:"@ + k.key, "mode:normal"@];
    lemma_run_concat(s, seq!["url_key:"@ + k.key], seq!["mode:normal"@]);
    assert(seq!["url_key:"@ + k.key] + seq!["mode:normal"@] =~= cmds);
    lemma_run_one(s, "url_key:"@ + k.key);
    lemma_run_one(s1, "mode:normal"@);
}

/// The first characters of the command prefixes, which tell them apart.
proof fn lemma_command_prefixes()
    ensures
        "url_navigate:"@.len() == 13 && "url_navigate:"@[0] == 'u' && "url_navigate:"@[4] == 'n',
        "url_set:"@.len() == 8 && "url_set:"@[0] == 'u' && "url_set:"@[4] == 's',
        "mode:normal"@.len() == 11 && "mode:normal"@[0] == 'm',
        "mode:url"@.len() == 8 && "mode:url"@[0] == 'm',
        "url_key:"@.len() == 8 && "url_key:"@[0] == 'u' && "url_key:"@[4] == 'k',
        "find_key:"@.len() == 9 && "find_key:"@[0] == 'f',
        "mode:find"@.len() == 9 && "mode:find"@[0] == 'm',
        "switch_to_tab_idx:"@.len() == 18 && "switch_to_tab_idx:"@[0] == 's'
            && "switch_to_tab_idx:"@[1] == 'w',
        "loading:"@.len() == 8 && "loading:"@[0] == 'l',
        "status:"@.len() == 7 && "status:"@[0] == 's' && "status:"@[1] == 't',
        "error_msg:"@.len() == 10 && "error_msg:"@[0] == 'e',
        "tabs:"@.len() == 5 && "tabs:"@[0] == 't',
        "ws:"@.len() == 3 && "ws:"@[0] == 'w',
{
    reveal_strlit("url_navigate:");
    reveal_strlit("url_set:");
    reveal_strlit("mode:normal");
    reveal_strlit("mode:url");
    reveal_strlit("url_key:");
    reveal_strlit("find_key:");
    reveal_strlit("mode:find");
    reveal_strlit("switch_to_tab_idx:");
    reveal_strlit("loading:");
    reveal_strlit("status:");
    reveal_strlit("error_msg:");
    reveal_strlit("tabs:");
    reveal_strlit("ws:");
}

/// `p` is not a prefix of `q + rest` when they differ at position `i`.
proof fn lemma_not_prefix(p: Seq<char>, q: Seq<char>, rest: Seq<char>, i: int)
    requires
        0 <= i < p.len(),
        i < q.len(),
        p[i] != q[i],
    ensures
        !p.is_prefix_of(q + rest),
        (q + rest) != p,
{
    if p.is_prefix_of(q + rest) {
        assert(p[i] == (q + rest).subrange(0, p.len() as int)[i]);
    }
    if (q + rest) == p {
        assert((q + rest)[i] == q[i]);
    }
}

proof fn lemma_prefix_of_concat(q: Seq<char>, rest: Seq<char>)
    ensures
        q.is_prefix_of(q + rest),
        after(q + rest, q) == rest,
{
    assert((q + rest).subrange(0, q.len() as int) =~= q);
    assert(after(q + rest, q) =~= rest);
}

/// Input that the input task forwards reaches the server: a `ws:` command
/// runs in every state, leaves the display as it was, and hands the JSON text
/// after `ws:` to the main loop as it is, to be sent.
pub proof fn law_forwarded_input_reaches_the_server(
    s: DisplayView,
    json: Seq<char>,
    parsed: Option<Seq<TabView>>,
)
    ensures
        command_outcome(s, "ws:"@ + json, parsed) == Some((s, Reply::Forward(json))),
{
    lemma_command_prefixes();
    let q = "ws:"@;
    lemma_not_prefix("url_navigate:"@, q, json, 0);
    lemma_not_prefix("url_set:"@, q, json, 0);
    lemma_not_prefix("mode:normal"@, q, json, 0);
    lemma_not_prefix("mode:url"@, q, json, 0);
    lemma_not_prefix("url_key:"@, q, json, 0);
    lemma_not_prefix("find_key:"@, q, json, 0);
    lemma_not_prefix("mode:find"@, q, json, 0);
    lemma_not_prefix("switch_to_tab_idx:"@, q, json, 0);
    lemma_not_prefix("loading:"@, q, json, 0);
    lemma_not_prefix("status:"@, q, json, 0);
    lemma_not_prefix("error_msg:"@, q, json, 0);
    lemma_not_prefix("tabs:"@, q, json, 0);
    lemma_prefix_of_concat(q, json);
}

/// A `url_set:` command shows a new address and puts it in the address bar.
pub proof fn lemma_url_set_command(s: DisplayView, u: Seq<char>, parsed: Option<Seq<TabView>>)
    ensures
        command_outcome(s, "url_set:"@ + u, parsed) == Some(
            (DisplayView { url: u, url_buffer: u, ..s }, Reply::Nothing),
        ),
{
    lemma_command_prefixes();
    let q = "url_set:"@;
    lemma_not_prefix("url_navigate:"@, q, u, 4);
    lemma_prefix_of_concat(q, u);
}

/// A `loading:` command sets the loading flag.
pub proof fn lemma_loading_command(s: DisplayView, v: Seq<char>, parsed: Option<Seq<TabView>>)
    ensures
        command_outcome(s, "loading:"@ + v, parsed) == Some(
            (DisplayView { loading: v == "true"@, ..s }, Reply::Nothing),
        ),
{
    lemma_command_prefixes();
    let q = "loading:"@;
    lemma_not_prefix("url_navigate:"@, q, v, 0);
    lemma_not_prefix("url_set:"@, q, v, 0);
    lemma_not_prefix("mode:normal"@, q, v, 0);
    lemma_not_prefix("mode:url"@, q, v, 0);
    lemma_not_prefix("url_key:"@, q, v, 0);
    lemma_not_prefix("find_key:"@, q, v, 0);
    lemma_not_prefix("mode:find"@, q, v, 0);
    lemma_not_prefix("switch_to_tab_idx:"@, q, v, 0);
    lemma_prefix_of_concat(q, v);
}

/// A `status:` command sets the status text.
pub proof fn lemma_status_command(s: DisplayView, v: Seq<char>, parsed: Option<Seq<TabView>>)
    ensures
        command_outcome(s, "status:"@ + v, parsed) == Some(
            (DisplayView { status: v, ..s }, Reply::Nothing),
        ),
{
    lemma_command_prefixes();
    let q = "status:"@;
    lemma_not_prefix("url_navigate:"@, q, v, 0);
    lemma_not_prefix("url_set:"@, q, v, 0);
    lemma_not_prefix("mode:normal"@, q, v, 0);
    lemma_not_prefix("mode:url"@, q, v, 0);
    lemma_not_prefix("url_key:"@, q, v, 0);
    lemma_not_prefix("find_key:"@, q, v, 0);
    lemma_not_prefix("mode:find"@, q, v, 0);
    lemma_not_prefix("switch_to_tab_idx:"@, q, v, 1);
    lemma_not_prefix("loading:"@, q, v, 0);
    lemma_prefix_of_concat(q, v);
}

/// An `error_msg:` command records the error and shows it as the status.
pub proof fn lemma_error_command(s: DisplayView, v: Seq<char>, parsed: Option<Seq<TabView>>)
    ensures
        command_outcome(s, "error_msg:"@ + v, parsed) == Some(
            (
                DisplayView {
                    error_log: log_after_push(s.error_log, v),
                    status: "\u{26a0} "@ + v,
                    ..s
                },
                Reply::Nothing,
            ),
        ),
{
    lemma_command_prefixes();
    let q = "error_msg:"@;
    lemma_not_prefix("url_navigate:"@, q, v, 0);
    lemma_not_prefix("url_set:"@, q, v, 0);
    lemma_not_prefix("mode:normal"@, q, v, 0);
    lemma_not_prefix("mode:url"@, q, v, 0);
    lemma_not_prefix("url_key:"@, q, v, 0);
    lemma_not_prefix("find_key:"@, q, v, 0);
    lemma_not_prefix("mode:find"@, q, v, 0);
    lemma_not_prefix("switch_to_tab_idx:"@, q, v, 0);
    lemma_not_prefix("loading:"@, q, v, 0);
    lemma_not_prefix("status:"@, q, v, 0);
    lemma_prefix_of_concat(q, v);
}

/// A `tabs:` command shows the tab list its text parsed to.
pub proof fn lemma_tabs_command(s: DisplayView, v: Seq<char>, tabs: Seq<TabView>)
    ensures
        command_outcome(s, "tabs:"@ + v, Some(tabs)) == Some(
            (DisplayView { tabs, ..s }, Reply::Nothing),
        ),
{
    lemma_command_prefixes();
    let q = "tabs:"@;
    lemma_not_prefix("url_navigate:"@, q, v, 0);
    lemma_not_prefix("url_set:"@, q, v, 0);
    lemma_not_prefix("mode:normal"@, q, v, 0);
    lemma_not_prefix("mode:url"@, q, v, 0);
    lemma_not_prefix("url_key:"@, q, v, 0);
    lemma_not_prefix("find_key:"@, q, v, 0);
    lemma_not_prefix("mode:find"@, q, v, 0);
    lemma_not_prefix("switch_to_tab_idx:"@, q, v, 0);
    lemma_not_prefix("loading:"@, q, v, 0);
    lemma_not_prefix("status:"@, q, v, 0);
    lemma_not_prefix("error_msg:"@, q, v, 0);
    lemma_prefix_of_concat(q, v);
}

/// What a command from the network task does to the display: it always
/// runs, sends nothing and leaves the input mode as it was.
pub open spec fn runs_quietly(s: DisplayView, c: Seq<char>) -> bool {
    command_outcome(s, c, None) matches Some((next, r)) && r == Reply::Nothing && next.mode
        == s.mode
}

/// Every command the network task derives from a server message runs, sends
/// nothing and leaves the input mode as it was; every tab list it derives is
/// what the display then shows.
pub proof fn law_server_messages_drive_the_display(
    s: DisplayView,
    msg_type: Seq<char>,
    p: JsonView,
    json: Seq<char>,
)
    ensures
        forall|i: int|
            0 <= i < server_actions(msg_type, p).len() ==> match #[trigger] server_actions(
                msg_type,
                p,
            )[i] {
                ActionView::Command(c) => runs_quietly(s, c),
                ActionView::Tabs(tabs) => command_outcome(s, "tabs:"@ + json, Some(tabs)) == Some(
                    (DisplayView { tabs, ..s }, Reply::Nothing),
                ),
                ActionView::Frame(_) => true,
            },
{
    let acts = server_actions(msg_type, p);
    assert forall|i: int| 0 <= i < acts.len() implies match #[trigger] acts[i] {
        ActionView::Command(c) => runs_quietly(s, c),
        ActionView::Tabs(tabs) => command_outcome(s, "tabs:"@ + json, Some(tabs)) == Some(
            (DisplayView { tabs, ..s }, Reply::Nothing),
        ),
        ActionView::Frame(_) => true,
    } by {
        match acts[i] {
            ActionView::Command(c) => {
                if msg_type == types::FRAME@ {
                } else if msg_type == types::SESSION_INFO@ || msg_type == types::URL_CHANGED@ {
                    let u = p.member_str("url"@).unwrap();
                    lemma_url_set_command(s, u, None);
                    if msg_type == types::SESSION_INFO@ {
                        assert(acts == url_actions(p) + tab_actions(p));
                        if i >= url_actions(p).len() {
                            assert(acts[i] == tab_actions(p)[i - url_actions(p).len()]);
                        }
                    }
                } else if msg_type == types::LOADING_STATE@ {
                    let b = p.member_bool("loading"@).unwrap();
                    lemma_loading_command(
                        s,
                        if b {
                            "true"@
                        } else {
                            "false"@
                        },
                        None,
                    );
                } else if msg_type == types::TAB_LIST@ {
                } else if msg_type == types::FIND_RESULTS@ {
                    let found = p.member_bool("found"@) == Some(true);
                    let text = match p.member_str("text"@) {
                        Some(t) => t,
                        None => ""@,
                    };
                    let rest = "Find '"@ + text + "' "@ + (if found {
                        "found"@
                    } else {
                        "not found"@
                    });
                    reveal_strlit("status:Find '");
                    reveal_strlit("status:");
                    reveal_strlit("Find '");
                    assert("status:Find '"@ =~= "status:"@ + "Find '"@);
                    assert(find_status(text, found) =~= "status:"@ + rest);
                    lemma_status_command(s, rest, None);
                } else if msg_type == types::ERROR@ {
                    lemma_error_command(s, p.member_str("message"@).unwrap(), None);
                }
            },
            ActionView::Tabs(tabs) => {
                lemma_tabs_command(s, json, tabs);
            },
            ActionView::Frame(_) => {},
        }
    }
}

/// The message types the server sends are told apart.
proof fn lemma_server_types_differ()
    ensures
        types::URL_CHANGED@ != types::FRAME@,
        types::URL_CHANGED@ != types::SESSION_INFO@,
        types::LOADING_STATE@ != types::FRAME@,
        types::LOADING_STATE@ != types::SESSION_INFO@,
        types::LOADING_STATE@ != types::URL_CHANGED@,
        types::ERROR@ != types::FRAME@,
        types::ERROR@ != types::SESSION_INFO@,
        types::ERROR@ != types::URL_CHANGED@,
        types::ERROR@ != types::LOADING_STATE@,
        types::ERROR@ != types::TAB_LIST@,
        types::ERROR@ != types::FIND_RESULTS@,
{
    reveal_strlit("frame");
    reveal_strlit("sessionInfo");
    reveal_strlit("urlChanged");
    reveal_strlit("loadingState");
    reveal_strlit("tabList");
    reveal_strlit("findResults");
    reveal_strlit("error");
    assert(types::ERROR@[0] != types::FRAME@[0]);
    assert(types::URL_CHANGED@.len() != types::SESSION_INFO@.len());
    assert(types::LOADING_STATE@.len() != types::SESSION_INFO@.len());
}

/// How a flag is written in a command.
pub open spec fn bool_text(b: bool) -> Seq<char> {
    if b {
        "true"@
    } else {
        "false"@
    }
}

/// What the server reports ends up on the display once the command derived
/// from its message has run: a new address is shown and put in the address
/// bar, a loading state sets the loading flag, and an error is logged and
/// shown as the status.
pub proof fn law_server_reports_reach_the_display(s: DisplayView, msg_type: Seq<char>, p: JsonView)
    ensures
        msg_type == types::URL_CHANGED@ ==> (p.member_str("url"@) matches Some(u) ==> (
        server_actions(msg_type, p) == seq![ActionView::Command("url_set:"@ + u)]
            && command_outcome(s, "url_set:"@ + u, None) == Some(
            (DisplayView { url: u, url_buffer: u, ..s }, Reply::Nothing),
        ))),
        msg_type == types::LOADING_STATE@ ==> (p.member_bool("loading"@) matches Some(b) ==> (
        server_actions(msg_type, p) == seq![ActionView::Command("loading:"@ + bool_text(b))]
            && command_outcome(s, "loading:"@ + bool_text(b), None) == Some(
            (DisplayView { loading: b, ..s }, Reply::Nothing),
        ))),
        msg_type == types::ERROR@ ==> (p.member_str("message"@) matches Some(m) ==> (
        server_actions(msg_type, p) == seq![ActionView::Command("error_msg:"@ + m)]
            && command_outcome(s, "error_msg:"@ + m, None) == Some(
            (
                DisplayView {
                    error_log: log_after_push(s.error_log, m),
                    status: "\u{26a0} "@ + m,
                    ..s
                },
                Reply::Nothing,
            ),
        ))),
{
    lemma_server_types_differ();
    if let Some(u) = p.member_str("url"@) {
        lemma_url_set_command(s, u, None);
    }
    if let Some(b) = p.member_bool("loading"@) {
        reveal_strlit("true");
        reveal_strlit("false");
        assert("false"@ != "true"@) by {
            assert("false"@.len() != "true"@.len());
        }
        lemma_loading_command(s, bool_text(b), None);
    }
    if let Some(m) = p.member_str("message"@) {
        lemma_error_command(s, m, None);
    }
}


/// The texts of the `Send` actions, in order.
pub open spec fn sent_texts(acts: Seq<WsAction>) -> Seq<Seq<char>>
    decreases acts.len(),
{
    if acts.len() == 0 {
        Seq::empty()
    } else {
        let rest = sent_texts(acts.drop_last());
        match acts.last() {
            WsAction::Send(t) => rest.push(t@),
            _ => rest,
        }
    }
}

/// The texts of the `Dispatch` actions, in order.
pub open spec fn dispatched_texts(acts: Seq<WsAction>) -> Seq<Seq<char>>
    decreases acts.len(),
{
    if acts.len() == 0 {
        Seq::empty()
    } else {
        let rest = dispatched_texts(acts.drop_last());
        match acts.last() {
            WsAction::Dispatch(t) => rest.push(t@),
            _ => rest,
        }
    }
}

/// The texts the main loop hands over, in order.
pub open spec fn outgoing_texts(evs: Seq<WsEvent>) -> Seq<Seq<char>>
    decreases evs.len(),
{
    if evs.len() == 0 {
        Seq::empty()
    } else {
        let rest = outgoing_texts(evs.drop_last());
        match evs.last() {
            WsEvent::Outgoing(m) => rest.push(m@),
            _ => rest,
        }
    }
}

/// The server's text messages, in order.
pub open spec fn incoming_texts(evs: Seq<WsEvent>) -> Seq<Seq<char>>
    decreases evs.len(),
{
    if evs.len() == 0 {
        Seq::empty()
    } else {
        let rest = incoming_texts(evs.drop_last());
        match evs.last() {
            WsEvent::Text(t) => rest.push(t@),
            _ => rest,
        }
    }
}

/// The network task's responses to a run of events, in order.
pub open spec fn event_actions(evs: Seq<WsEvent>) -> Seq<WsAction> {
    evs.map_values(|e: WsEvent| event_action(e))
}

/// Over a run of events on a connection, the texts the main loop hands over
/// are sent to the server unchanged and in the order they came, and the
/// server's text messages are dispatched unchanged and in the order they
/// arrived; pings and ignored frames come in between.
pub proof fn law_connection_keeps_message_order(evs: Seq<WsEvent>)
    ensures
        sent_texts(event_actions(evs)) == outgoing_texts(evs),
        dispatched_texts(event_actions(evs)) == incoming_texts(evs),
    decreases evs.len(),
{
    if evs.len() > 0 {
        law_connection_keeps_message_order(evs.drop_last());
        assert(event_actions(evs).drop_last() =~= event_actions(evs.drop_last()));
        assert(event_actions(evs).last() == event_action(evs.last()));
    }
}

/// In a well-formed object a key names one member, and looking the key up
/// gives that member's value, as in a JSON object map.
pub proof fn law_lookup_in_a_well_formed_object(v: JsonView, i: int)
    requires
        v.well_formed(),
        v is Object,
        0 <= i < v->Object_0.len(),
    ensures
        v.member(v->Object_0[i].0) == Some(v->Object_0[i].1),
        forall|j: int|
            0 <= j < v->Object_0.len() && j != i ==> v->Object_0[j].0 != v->Object_0[i].0,
{
    lemma_find_member_distinct(v->Object_0, i);
}

/// Enter in the address bar navigates to the typed text itself when it names
/// a scheme (contains `://`), and otherwise to `https://` followed by the
/// typed text; the page's address becomes that address, the address bar
/// closes and its text is cleared.
pub proof fn law_enter_navigates_to_the_typed_address(
    s: DisplayView,
    parsed: Option<Seq<TabView>>,
)
    ensures
        ({
            let typed = s.url_buffer;
            let target = if contains_text(typed, "://"@) {
                typed
            } else {
                "https://"@ + typed
            };
            command_outcome(s, "url_key:Enter"@, parsed) == Some(
                (
                    DisplayView { url: target, url_buffer: Seq::empty(), mode: Mode::Normal, ..s },
                    Reply::Navigate(target),
                ),
            )
        }),
{
    reveal_strlit("url_key:Enter");
    reveal_strlit("url_key:");
    reveal_strlit("Enter");
    assert("url_key:Enter"@ =~= "url_key:"@ + "Enter"@);
    lemma_url_key_command(s, "Enter"@, parsed);
}

/// The first tab marked active has index `i`.
proof fn lemma_first_active_at(tabs: Seq<TabView>, i: int)
    requires
        0 <= i < tabs.len(),
        tabs[i].active,
        forall|j: int| 0 <= j < i ==> !(#[trigger] tabs[j]).active,
    ensures
        first_active(tabs) == Some(i as nat),
    decreases i,
{
    if i > 0 {
        let rest = tabs.drop_first();
        assert(!tabs[0].active);
        assert forall|j: int| 0 <= j < i - 1 implies !(#[trigger] rest[j]).active by {
            assert(rest[j] == tabs[j + 1]);
        }
        lemma_first_active_at(rest, i - 1);
    }
}

/// No tab is marked active.
proof fn lemma_first_active_none(tabs: Seq<TabView>)
    requires
        forall|j: int| 0 <= j < tabs.len() ==> !(#[trigger] tabs[j]).active,
    ensures
        first_active(tabs) is None,
    decreases tabs.len(),
{
    if tabs.len() > 0 {
        let rest = tabs.drop_first();
        assert(!tabs[0].active);
        assert forall|j: int| 0 <= j < rest.len() implies !(#[trigger] rest[j]).active by {
            assert(rest[j] == tabs[j + 1]);
        }
        lemma_first_active_none(rest);
    }
}

/// The address bar's tab marker names the first tab marked active by its
/// number, counted from 1 (` [k]`), whatever the number of tabs; with no tab
/// active it names the first tab, and with no tabs there is no marker.
pub proof fn law_tab_marker_names_the_active_tab(tabs: Seq<TabView>, i: int)
    ensures
        tabs.len() == 0 ==> tab_label(tabs) is None,
        0 <= i < tabs.len() && tabs[i].active && (forall|j: int|
            0 <= j < i ==> !(#[trigger] tabs[j]).active) ==> tab_label(tabs) == Some(
            " ["@ + decimal((i + 1) as nat) + "]"@,
        ),
        tabs.len() > 0 && (forall|j: int| 0 <= j < tabs.len() ==> !(#[trigger] tabs[j]).active)
            ==> tab_label(tabs) == Some(" ["@ + decimal(1) + "]"@),
{
    if 0 <= i < tabs.len() && tabs[i].active && (forall|j: int|
        0 <= j < i ==> !(#[trigger] tabs[j]).active) {
        lemma_first_active_at(tabs, i);
    }
    if forall|j: int| 0 <= j < tabs.len() ==> !(#[trigger] tabs[j]).active {
        lemma_first_active_none(tabs);
    }
}

/// The members of a scroll message's payload.
proof fn lemma_scroll_members(dx: i32, dy: i32)
    ensures
        scroll_json(dx, dy).member("delta_x"@) == Some(i32_json(dx)),
        scroll_json(dx, dy).member("delta_y"@) == Some(i32_json(dy)),
{
    reveal_strlit("delta_x");
    reveal_strlit("delta_y");
    assert("delta_x"@[6] != "delta_y"@[6]);
    let e = seq![("delta_x"@, i32_json(dx)), ("delta_y"@, i32_json(dy))];
    assert(distinct_keys(e));
    lemma_find_member_distinct(e, 0);
    lemma_find_member_distinct(e, 1);
}

/// The mouse wheel scrolls the page the way it turns: down and right by
/// three (a positive delta), up and left by three the other way (a negative
/// delta), the other axis staying at 0.
pub proof fn law_wheel_scrolls_the_way_it_turns(ev: TermMouseEvent)
    ensures
        ({
            let (action, button) = mouse_action_of(ev.kind);
            let (t, p) = mouse_message(MouseInput { action, button, col: ev.column, row: ev.row });
            let dx = p.member("delta_x"@);
            let dy = p.member("delta_y"@);
            &&& ev.kind == TermMouseKind::ScrollDown ==> t == types::SCROLL@ && dx == Some(
                JsonView::PosInt(0),
            ) && dy == Some(JsonView::PosInt(3))
            &&& ev.kind == TermMouseKind::ScrollUp ==> t == types::SCROLL@ && dx == Some(
                JsonView::PosInt(0),
            ) && dy == Some(JsonView::NegInt(-3i64))
            &&& ev.kind == TermMouseKind::ScrollRight ==> t == types::SCROLL@ && dx == Some(
                JsonView::PosInt(3),
            ) && dy == Some(JsonView::PosInt(0))
            &&& ev.kind == TermMouseKind::ScrollLeft ==> t == types::SCROLL@ && dx == Some(
                JsonView::NegInt(-3i64),
            ) && dy == Some(JsonView::PosInt(0))
        }),
{
    lemma_scroll_members(0, 3);
    lemma_scroll_members(0, -3i32);
    lemma_scroll_members(3, 0);
    lemma_scroll_members(-3i32, 0);
}

/// In the find bar, Delete removes the character at the cursor and Backspace
/// the one-byte character before it: the input task stays in find mode and
/// sends the find-bar command named after the key, and the interpreter edits
/// the find text so, keeping the cursor on Delete and stepping it back on
/// Backspace; at the end of the text Delete, and at its start Backspace,
/// change nothing.
pub proof fn law_find_delete_and_backspace(
    s: DisplayView,
    k: KeyView,
    parsed: Option<Seq<TabView>>,
)
    requires
        s.mode matches Mode::FindActive { cursor } && char_index_at(s.find_buffer, cursor as int)
            is Some,
        k.is_special,
        k.key == "Delete"@ || k.key == "Backspace"@,
    ensures
        ({
            let cursor = s.mode->FindActive_cursor;
            let buf = s.find_buffer;
            let i = char_index_at(buf, cursor as int)->0;
            let outcome = command_outcome(s, "find_key:"@ + k.key, parsed);
            &&& key_input_outcome(s.mode, k) == (
                false,
                s.mode,
                seq![OutView::Command("find_key:"@ + k.key)],
            )
            &&& k.key == "Delete"@ && i < buf.len() ==> outcome == Some(
                (DisplayView { find_buffer: buf.remove(i), ..s }, Reply::Nothing),
            )
            &&& k.key == "Delete"@ && i == buf.len() ==> outcome == Some((s, Reply::Nothing))
            &&& k.key == "Backspace"@ && 0 < i && char_width(buf[i - 1]) == 1 ==> outcome == Some(
                (
                    DisplayView {
                        find_buffer: buf.remove(i - 1),
                        mode: Mode::FindActive { cursor: (cursor - 1) as usize },
                        ..s
                    },
                    Reply::Nothing,
                ),
            )
            &&& k.key == "Backspace"@ && i == 0 ==> outcome == Some((s, Reply::Nothing))
        }),
{
    reveal_strlit("Delete");
    reveal_strlit("Backspace");
    reveal_strlit("Enter");
    reveal_strlit("Escape");
    reveal_strlit("c");
    assert("Delete"@.len() != "Backspace"@.len());
    assert("Delete"@.len() != "Enter"@.len());
    assert("Delete"@[0] != "Escape"@[0]);
    assert("Delete"@.len() != "c"@.len());
    assert("Backspace"@.len() != "Enter"@.len());
    assert("Backspace"@.len() != "Escape"@.len());
    assert("Backspace"@.len() != "c"@.len());
    reveal_strlit("find_key:");
    reveal_strlit("find_key:Delete");
    reveal_strlit("find_key:Backspace");
    assert("find_key:Delete"@ =~= "find_key:"@ + "Delete"@);
    assert("find_key:Backspace"@ =~= "find_key:"@ + "Backspace"@);
    lemma_find_key_command(s, k.key, parsed);
    let cursor = s.mode->FindActive_cursor;
    let buf = s.find_buffer;
    let i = char_index_at(buf, cursor as int)->0;
    lemma_char_index_at_sound(buf, cursor as int);
    lemma_byte_len_take_le(buf, i);
    if i == buf.len() {
        assert(buf.take(i) =~= buf);
    }
    if i == 0 {
        assert(buf.take(0).len() == 0);
        assert(byte_len(buf.take(0)) == 0);
    }
    if 0 < i && char_width(buf[i - 1]) == 1 {
        assert(buf.take(i) =~= buf.take(i - 1).push(buf[i - 1]));
        lemma_byte_len_push(buf.take(i - 1), buf[i - 1]);
        lemma_char_index_at_unique(buf, cursor - 1, i - 1);
    }
}

/// In normal mode a key that is no shortcut goes to the page and the mode
/// stays normal. Typed with alt or control held, or a key name, it is sent as
/// a keyPress naming the key and carrying the modifiers held; a plain
/// character (no key name, nor Enter, Backspace, Tab or Escape) is sent as
/// typed text.
pub proof fn law_keys_reach_the_page(k: KeyView)
    requires
        !(k.ctrl && (k.key == "c"@ || k.key == "l"@ || k.key == "r"@ || k.key == "t"@ || k.key
            == "w"@ || k.key == "f"@ || k.key == "b"@ || k.key == "n"@ || is_tab_digit(k.key))),
        !(k.alt && (k.key == "Left"@ || k.key == "h"@ || k.key == "Right"@ || k.key == "l"@)),
    ensures
        ({
            let (quit, mode, out) = key_input_outcome(Mode::Normal, k);
            let mods = KeyModifiers { alt: k.alt, ctrl: k.ctrl, shift: k.shift, meta: false };
            &&& !quit
            &&& mode == Mode::Normal
            &&& out.len() == 1
            &&& out[0] is Forward
            &&& (k.alt || k.ctrl || k.is_special) ==> out[0]->Forward_0 == types::KEY_PRESS@
                && out[0]->Forward_1.member_str("key"@) == Some(k.key)
                && out[0]->Forward_1.member("modifiers"@) == Some(mods.payload_view())
            &&& !(k.alt || k.ctrl || k.is_special) && k.key != "Enter"@ && k.key != "Backspace"@
                && k.key != "Tab"@ && k.key != "Escape"@ ==> out[0]->Forward_0 == types::TYPE@
                && out[0]->Forward_1.member_str("text"@) == Some(k.key)
        }),
{
    reveal_strlit("key");
    reveal_strlit("modifiers");
    assert("key"@.len() != "modifiers"@.len());
    let mods = KeyModifiers { alt: k.alt, ctrl: k.ctrl, shift: k.shift, meta: false };
    let e = seq![("key"@, JsonView::Str(k.key)), ("modifiers"@, mods.payload_view())];
    assert(distinct_keys(e));
    lemma_find_member_distinct(e, 0);
    lemma_find_member_distinct(e, 1);
    assert(seq![("key"@, JsonView::Str(k.key))] + seq![("modifiers"@, mods.payload_view())] =~= e);
}

/// An ASCII character is one byte long.
proof fn lemma_ascii_char_one_byte(c: char)
    requires
        (c as u32) < 0x80,
    ensures
        byte_len(seq![c]) == 1,
        seq![c][0] == c,
{
    assert(seq![c].drop_first() =~= Seq::<char>::empty());
    assert(byte_len(seq![c]) == char_width(c) + byte_len(Seq::<char>::empty()));
}

/// A one-byte character typed in an open editor goes in at the cursor: it
/// lands just before the character that started at the cursor, the cursor
/// moves past it by one byte, and nothing is sent.
pub proof fn law_typing_inserts_at_the_cursor(s: DisplayView, c: char, parsed: Option<Seq<TabView>>)
    requires
        (c as u32) < 0x80,
    ensures
        (s.mode is UrlInput && char_index_at(s.url_buffer, s.mode->UrlInput_cursor as int) is Some)
            ==> command_outcome(s, "url_key:"@ + seq![c], parsed) == Some(
            (
                DisplayView {
                    url_buffer: s.url_buffer.insert(
                        char_index_at(s.url_buffer, s.mode->UrlInput_cursor as int)->0,
                        c,
                    ),
                    mode: Mode::UrlInput { cursor: (s.mode->UrlInput_cursor + 1) as usize },
                    ..s
                },
                Reply::Nothing,
            ),
        ),
        (s.mode is FindActive && char_index_at(s.find_buffer, s.mode->FindActive_cursor as int)
            is Some) ==> command_outcome(s, "find_key:"@ + seq![c], parsed) == Some(
            (
                DisplayView {
                    find_buffer: s.find_buffer.insert(
                        char_index_at(s.find_buffer, s.mode->FindActive_cursor as int)->0,
                        c,
                    ),
                    mode: Mode::FindActive { cursor: (s.mode->FindActive_cursor + 1) as usize },
                    ..s
                },
                Reply::Nothing,
            ),
        ),
{
    lemma_ascii_char_one_byte(c);
    lemma_char_is_no_key_name(c);
    lemma_url_key_command(s, seq![c], parsed);
    lemma_find_key_command(s, seq![c], parsed);
}

/// Keys of the open address bar: Escape closes it without navigating and
/// clears what was typed; Home puts the cursor at the start and End at the
/// end of the typed text; none of them sends anything.
pub proof fn law_address_bar_keys(s: DisplayView, parsed: Option<Seq<TabView>>)
    requires
        s.mode is UrlInput,
        byte_len(s.url_buffer) <= usize::MAX,
    ensures
        command_outcome(s, "url_key:Escape"@, parsed) == Some(
            (DisplayView { mode: Mode::Normal, url_buffer: Seq::empty(), ..s }, Reply::Nothing),
        ),
        command_outcome(s, "url_key:Home"@, parsed) == Some(
            (DisplayView { mode: Mode::UrlInput { cursor: 0 }, ..s }, Reply::Nothing),
        ),
        command_outcome(s, "url_key:End"@, parsed) == Some(
            (
                DisplayView { mode: Mode::UrlInput { cursor: byte_len(s.url_buffer) as usize }, ..s },
                Reply::Nothing,
            ),
        ),
{
    reveal_strlit("url_key:");
    reveal_strlit("Escape");
    reveal_strlit("Home");
    reveal_strlit("End");
    reveal_strlit("Enter");
    reveal_strlit("Backspace");
    reveal_strlit("Delete");
    reveal_strlit("Left");
    reveal_strlit("Right");
    reveal_strlit("url_key:Escape");
    reveal_strlit("url_key:Home");
    reveal_strlit("url_key:End");
    assert("url_key:Escape"@ =~= "url_key:"@ + "Escape"@);
    assert("url_key:Home"@ =~= "url_key:"@ + "Home"@);
    assert("url_key:End"@ =~= "url_key:"@ + "End"@);
    assert("Escape"@[1] != "Enter"@[1]);
    assert("Home"@.len() != "Enter"@.len() && "Home"@.len() != "Escape"@.len());
    assert("Home"@.len() != "Backspace"@.len() && "Home"@.len() != "Delete"@.len());
    assert("Home"@[0] != "Left"@[0] && "Home"@.len() != "Right"@.len());
    assert("End"@.len() != "Enter"@.len() && "End"@.len() != "Escape"@.len());
    assert("End"@.len() != "Backspace"@.len() && "End"@.len() != "Delete"@.len());
    assert("End"@.len() != "Left"@.len() && "End"@.len() != "Right"@.len());
    assert("End"@.len() != "Home"@.len());
    lemma_url_key_command(s, "Escape"@, parsed);
    lemma_url_key_command(s, "Home"@, parsed);
    lemma_url_key_command(s, "End"@, parsed);
}

/// Escape closes the find bar on both sides: the input task goes back to
/// normal mode, and the commands it sends leave the interpreter in normal
/// mode with the find text cleared, sending nothing.
pub proof fn law_escape_closes_the_find_bar(s: DisplayView, k: KeyView)
    requires
        s.mode is FindActive,
        k.key == "Escape"@,
    ensures
        ({
            let (quit, next_mode, out) = key_input_outcome(s.mode, k);
            &&& !quit
            &&& next_mode == Mode::Normal
            &&& out == seq![OutView::Command("mode:normal"@), OutView::Command("find_key:clear"@)]
        }),
        run_commands(s, seq!["mode:normal"@, "find_key:clear"@]) == Some(
            (
                DisplayView { mode: Mode::Normal, find_buffer: Seq::empty(), ..s },
                seq![Reply::Nothing, Reply::Nothing],
            ),
        ),
{
    lemma_key_names_differ();
    reveal_strlit("find_key:clear");
    reveal_strlit("find_key:");
    reveal_strlit("clear");
    reveal_strlit("Enter");
    reveal_strlit("Backspace");
    reveal_strlit("Delete");
    assert("clear"@.len() != "Enter"@.len() || "clear"@[0] != "Enter"@[0]);
    assert("clear"@.len() != "Backspace"@.len() && "clear"@.len() != "Delete"@.len());
    assert("find_key:clear"@ =~= "find_key:"@ + "clear"@);
    let s1 = DisplayView { mode: Mode::Normal, ..s };
    lemma_mode_normal_command(s);
    lemma_find_key_command(s1, "clear"@, None);
    lemma_run_concat(s, seq!["mode:normal"@], seq!["find_key:clear"@]);
    assert(seq!["mode:normal"@] + seq!["find_key:clear"@] =~= seq![
        "mode:normal"@,
        "find_key:clear"@,
    ]);
    lemma_run_one(s, "mode:normal"@);
    lemma_run_one(s1, "find_key:clear"@);
    assert(seq![Reply::Nothing] + seq![Reply::Nothing] =~= seq![Reply::Nothing, Reply::Nothing]);
}

/// Enter in the find bar searches the page for the find text, when there is
/// any, and closes the find bar, clearing its text: the input task sends the
/// find-bar Enter command, and the interpreter answers it so.
pub proof fn law_enter_searches_the_find_text(
    s: DisplayView,
    k: KeyView,
    parsed: Option<Seq<TabView>>,
)
    requires
        s.mode is FindActive,
        k.key == "Enter"@,
    ensures
        key_input_outcome(s.mode, k) == (false, s.mode, seq![OutView::Command("find_key:Enter"@)]),
        command_outcome(s, "find_key:Enter"@, parsed) == Some(
            (
                DisplayView { mode: Mode::Normal, find_buffer: Seq::empty(), ..s },
                if s.find_buffer.len() > 0 {
                    Reply::FindInPage(s.find_buffer)
                } else {
                    Reply::Nothing
                },
            ),
        ),
{
    lemma_key_names_differ();
    reveal_strlit("find_key:Enter");
    reveal_strlit("find_key:");
    reveal_strlit("Enter");
    assert("find_key:Enter"@ =~= "find_key:"@ + "Enter"@);
    lemma_find_key_command(s, "Enter"@, parsed);
}

/// The normal-mode shortcuts that act on the page: control-B, alt-Left and
/// alt-H go back in the history, control-N, alt-Right and alt-L (without
/// control) go forward, and control-R asks for a fresh screenshot. Each sends
/// one message without payload and the mode stays normal.
pub proof fn law_history_and_screenshot_shortcuts(k: KeyView)
    ensures
        k.ctrl && k.key == "b"@ ==> key_input_outcome(Mode::Normal, k) == (
            false,
            Mode::Normal,
            seq![OutView::Forward(types::GO_BACK@, JsonView::Null)],
        ),
        k.ctrl && k.key == "n"@ ==> key_input_outcome(Mode::Normal, k) == (
            false,
            Mode::Normal,
            seq![OutView::Forward(types::GO_FORWARD@, JsonView::Null)],
        ),
        k.ctrl && k.key == "r"@ ==> key_input_outcome(Mode::Normal, k) == (
            false,
            Mode::Normal,
            seq![OutView::Forward(types::REQUEST_SCREENSHOT@, JsonView::Null)],
        ),
        k.alt && (k.key == "Left"@ || k.key == "h"@) ==> key_input_outcome(Mode::Normal, k) == (
            false,
            Mode::Normal,
            seq![OutView::Forward(types::GO_BACK@, JsonView::Null)],
        ),
        k.alt && !k.ctrl && (k.key == "Right"@ || k.key == "l"@) ==> key_input_outcome(
            Mode::Normal,
            k,
        ) == (false, Mode::Normal, seq![OutView::Forward(types::GO_FORWARD@, JsonView::Null)]),
{
    reveal_strlit("c");
    reveal_strlit("l");
    reveal_strlit("r");
    reveal_strlit("t");
    reveal_strlit("w");
    reveal_strlit("f");
    reveal_strlit("b");
    reveal_strlit("n");
    reveal_strlit("h");
    reveal_strlit("1");
    reveal_strlit("2");
    reveal_strlit("3");
    reveal_strlit("4");
    reveal_strlit("5");
    reveal_strlit("6");
    reveal_strlit("7");
    reveal_strlit("8");
    reveal_strlit("9");
    reveal_strlit("Left");
    reveal_strlit("Right");
    assert("b"@[0] != "c"@[0]);
    assert("b"@[0] != "l"@[0]);
    assert("b"@[0] != "r"@[0]);
    assert("b"@[0] != "t"@[0]);
    assert("b"@[0] != "w"@[0]);
    assert("b"@[0] != "f"@[0]);
    assert("b"@[0] != "n"@[0]);
    assert("b"@[0] != "h"@[0]);
    assert("b"@[0] != "1"@[0]);
    assert("b"@[0] != "2"@[0]);
    assert("b"@[0] != "3"@[0]);
    assert("b"@[0] != "4"@[0]);
    assert("b"@[0] != "5"@[0]);
    assert("b"@[0] != "6"@[0]);
    assert("b"@[0] != "7"@[0]);
    assert("b"@[0] != "8"@[0]);
    assert("b"@[0] != "9"@[0]);
    assert("n"@[0] != "c"@[0]);
    assert("n"@[0] != "l"@[0]);
    assert("n"@[0] != "r"@[0]);
    assert("n"@[0] != "t"@[0]);
    assert("n"@[0] != "w"@[0]);
    assert("n"@[0] != "f"@[0]);
    assert("n"@[0] != "b"@[0]);
    assert("n"@[0] != "h"@[0]);
    assert("n"@[0] != "1"@[0]);
    assert("n"@[0] != "2"@[0]);
    assert("n"@[0] != "3"@[0]);
    assert("n"@[0] != "4"@[0]);
    assert("n"@[0] != "5"@[0]);
    assert("n"@[0] != "6"@[0]);
    assert("n"@[0] != "7"@[0]);
    assert("n"@[0] != "8"@[0]);
    assert("n"@[0] != "9"@[0]);
    assert("r"@[0] != "c"@[0]);
    assert("r"@[0] != "l"@[0]);
    assert("r"@[0] != "t"@[0]);
    assert("r"@[0] != "w"@[0]);
    assert("r"@[0] != "f"@[0]);
    assert("r"@[0] != "b"@[0]);
    assert("r"@[0] != "n"@[0]);
    assert("r"@[0] != "h"@[0]);
    assert("r"@[0] != "1"@[0]);
    assert("r"@[0] != "2"@[0]);
    assert("r"@[0] != "3"@[0]);
    assert("r"@[0] != "4"@[0]);
    assert("r"@[0] != "5"@[0]);
    assert("r"@[0] != "6"@[0]);
    assert("r"@[0] != "7"@[0]);
    assert("r"@[0] != "8"@[0]);
    assert("r"@[0] != "9"@[0]);
    assert("h"@[0] != "c"@[0]);
    assert("h"@[0] != "l"@[0]);
    assert("h"@[0] != "r"@[0]);
    assert("h"@[0] != "t"@[0]);
    assert("h"@[0] != "w"@[0]);
    assert("h"@[0] != "f"@[0]);
    assert("h"@[0] != "b"@[0]);
    assert("h"@[0] != "n"@[0]);
    assert("h"@[0] != "1"@[0]);
    assert("h"@[0] != "2"@[0]);
    assert("h"@[0] != "3"@[0]);
    assert("h"@[0] != "4"@[0]);
    assert("h"@[0] != "5"@[0]);
    assert("h"@[0] != "6"@[0]);
    assert("h"@[0] != "7"@[0]);
    assert("h"@[0] != "8"@[0]);
    assert("h"@[0] != "9"@[0]);
    assert("Left"@.len() != "c"@.len() && "Left"@.len() != "l"@.len() && "Left"@.len() != "r"@.len());
    assert("Left"@.len() != "t"@.len() && "Left"@.len() != "w"@.len() && "Left"@.len() != "f"@.len());
    assert("Left"@.len() != "b"@.len() && "Left"@.len() != "n"@.len() && "Left"@.len() != "1"@.len());
    assert("Left"@.len() != "2"@.len() && "Left"@.len() != "3"@.len() && "Left"@.len() != "4"@.len());
    assert("Left"@.len() != "5"@.len() && "Left"@.len() != "6"@.len() && "Left"@.len() != "7"@.len());
    assert("Left"@.len() != "8"@.len() && "Left"@.len() != "9"@.len());
    assert("Right"@.len() != "Left"@.len() && "Right"@.len() != "c"@.len());
    assert("l"@[0] != "Left"@[0] && "l"@[0] != "h"@[0] && "l"@[0] != "c"@[0]);
}

/// A one-digit decimal text reads as its number.
proof fn lemma_parse_digit(d: nat)
    requires
        1 <= d <= 9,
    ensures
        decimal(d) == seq![digit_char(d)],
        parsed_usize(decimal(d)) == Some(d as usize),
{
    let t = seq![digit_char(d)];
    assert(t.drop_last() =~= Seq::<char>::empty());
    assert(digits_value(t) == digits_value(Seq::<char>::empty()) * 10 + ((t.last() as u32) - 48) as nat);
    assert(all_digits(t));
}

/// Control and a digit from 1 to 9 switch to the tab of that number: the
/// input task sends the tab-switch command with the digit, and the
/// interpreter answers it by asking the server for the tab with that number,
/// counted from 1, when there is one, and with nothing otherwise; the display
/// and the mode stay as they were.
pub proof fn law_control_digit_switches_to_that_tab(
    s: DisplayView,
    k: KeyView,
    d: nat,
    parsed: Option<Seq<TabView>>,
)
    requires
        k.ctrl,
        1 <= d <= 9,
        k.key == decimal(d),
    ensures
        key_input_outcome(Mode::Normal, k) == (
            false,
            Mode::Normal,
            seq![OutView::Command("switch_to_tab_idx:"@ + k.key)],
        ),
        command_outcome(s, "switch_to_tab_idx:"@ + decimal(d), parsed) == Some(
            (
                s,
                if d <= s.tabs.len() {
                    Reply::SwitchTab(s.tabs[d - 1].id)
                } else {
                    Reply::Nothing
                },
            ),
        ),
{
    lemma_parse_digit(d);
    reveal_strlit("c");
    reveal_strlit("l");
    reveal_strlit("r");
    reveal_strlit("t");
    reveal_strlit("w");
    reveal_strlit("f");
    reveal_strlit("b");
    reveal_strlit("n");
    reveal_strlit("h");
    reveal_strlit("1");
    reveal_strlit("2");
    reveal_strlit("3");
    reveal_strlit("4");
    reveal_strlit("5");
    reveal_strlit("6");
    reveal_strlit("7");
    reveal_strlit("8");
    reveal_strlit("9");
    let t = seq![digit_char(d)];
    if d == 1 {
        assert(t =~= "1"@);
    }
    if d == 2 {
        assert(t =~= "2"@);
    }
    if d == 3 {
        assert(t =~= "3"@);
    }
    if d == 4 {
        assert(t =~= "4"@);
    }
    if d == 5 {
        assert(t =~= "5"@);
    }
    if d == 6 {
        assert(t =~= "6"@);
    }
    if d == 7 {
        assert(t =~= "7"@);
    }
    if d == 8 {
        assert(t =~= "8"@);
    }
    if d == 9 {
        assert(t =~= "9"@);
    }
    lemma_command_prefixes();
    let q = "switch_to_tab_idx:"@;
    let v = decimal(d);
    lemma_not_prefix("url_navigate:"@, q, v, 0);
    lemma_not_prefix("url_set:"@, q, v, 0);
    lemma_not_prefix("mode:normal"@, q, v, 0);
    lemma_not_prefix("mode:url"@, q, v, 0);
    lemma_not_prefix("url_key:"@, q, v, 0);
    lemma_not_prefix("find_key:"@, q, v, 0);
    lemma_not_prefix("mode:find"@, q, v, 0);
    lemma_prefix_of_concat(q, v);
}

/// The name a button is sent by.
pub open spec fn sent_button_name(b: TermButton) -> Seq<char> {
    match b {
        TermButton::Left => "left"@,
        TermButton::Middle => "middle"@,
        TermButton::Right => "right"@,
    }
}

/// The members of a pointer payload.
proof fn lemma_pointer_members(x: u32, y: u32, button: Seq<char>)
    ensures
        JsonView::Object(pointer_members(x, y, button)).member("x"@) == Some(u32_json(x)),
        JsonView::Object(pointer_members(x, y, button)).member("y"@) == Some(u32_json(y)),
        JsonView::Object(pointer_members(x, y, button)).member_str("button"@) == Some(button),
{
    reveal_strlit("x");
    reveal_strlit("y");
    reveal_strlit("button");
    assert("x"@[0] != "y"@[0]);
    assert("x"@.len() != "button"@.len() && "y"@.len() != "button"@.len());
    let e = pointer_members(x, y, button);
    assert(distinct_keys(e));
    lemma_find_member_distinct(e, 0);
    lemma_find_member_distinct(e, 1);
    lemma_find_member_distinct(e, 2);
}

/// Mouse events point at the cell under the pointer: a button going down
/// clicks there and going up releases there, both naming the button, and
/// moving the mouse (with a button held or not) moves the pointer there; the
/// coordinates are the cell's column and row.
pub proof fn law_mouse_events_point_at_the_cell(ev: TermMouseEvent)
    ensures
        ({
            let (action, button) = mouse_action_of(ev.kind);
            let (t, p) = mouse_message(MouseInput { action, button, col: ev.column, row: ev.row });
            let at_cell = p.member("x"@) == Some(JsonView::PosInt(ev.column as u64)) && p.member(
                "y"@,
            ) == Some(JsonView::PosInt(ev.row as u64));
            &&& ev.kind is Down ==> t == types::CLICK@ && at_cell && p.member_str("button"@) == Some(
                sent_button_name(ev.kind->Down_0),
            )
            &&& ev.kind is Up ==> t == types::MOUSE_UP@ && at_cell && p.member_str("button"@) == Some(
                sent_button_name(ev.kind->Up_0),
            )
            &&& (ev.kind is Drag || ev.kind is Moved) ==> t == types::MOUSE_MOVE@ && at_cell
        }),
{
    let x = ev.column as u32;
    let y = ev.row as u32;
    match ev.kind {
        TermMouseKind::Down(b) => {
            lemma_pointer_members(x, y, sent_button_name(b));
        },
        TermMouseKind::Up(b) => {
            lemma_pointer_members(x, y, sent_button_name(b));
        },
        _ => {
            reveal_strlit("x");
            reveal_strlit("y");
            assert("x"@[0] != "y"@[0]);
            let e = seq![("x"@, u32_json(x)), ("y"@, u32_json(y))];
            assert(distinct_keys(e));
            lemma_find_member_distinct(e, 0);
            lemma_find_member_distinct(e, 1);
        },
    }
}

/// The address bar shows a lock before https addresses (two spaces before
/// others), then, while an address is typed, the typed text with the cursor
/// drawn in it: removing the cursor character gives back the typed text, and
/// the text before it takes as many bytes as the cursor's offset (the end
/// when the cursor lies past it); otherwise it shows the page's address, or
/// `about:blank` when there is none.
pub proof fn law_address_bar_shows_the_address(s: DisplayView)
    requires
        address_drawable(s),
    ensures
        ({
            let shown = shown_address(s);
            &&& address_prefix(s.url) == if "https://"@.is_prefix_of(s.url) {
                " \u{1f512} "@
            } else {
                "  "@
            }
            &&& !(s.mode is UrlInput) ==> shown == if s.url.len() == 0 {
                "about:blank"@
            } else {
                s.url
            }
            &&& s.mode is UrlInput ==> ({
                let buf = s.url_buffer;
                let c = s.mode->UrlInput_cursor;
                let pos = if c < byte_len(buf) {
                    c as int
                } else {
                    byte_len(buf) as int
                };
                let i = char_index_at(buf, pos)->0;
                &&& shown.len() == buf.len() + 1
                &&& shown[i] == '\u{2588}'
                &&& shown.remove(i) == buf
                &&& byte_len(buf.take(i)) == pos
            })
        }),
{
    if s.mode is UrlInput {
        let buf = s.url_buffer;
        let c = s.mode->UrlInput_cursor;
        let pos = if c < byte_len(buf) {
            c as int
        } else {
            byte_len(buf) as int
        };
        let i = char_index_at(buf, pos)->0;
        lemma_char_index_at_sound(buf, pos);
        lemma_byte_len_insert(buf, i, '\u{2588}');
    }
}

/// In the address bar, Delete removes the character at the cursor and
/// Backspace the one-byte character before it: the input task stays in
/// address mode and sends the address-bar command named after the key, and
/// the interpreter edits the typed address so, keeping the cursor on Delete and stepping it back on
/// Backspace; at the end of the text Delete, and at its start Backspace,
/// change nothing.
pub proof fn law_address_delete_and_backspace(
    s: DisplayView,
    k: KeyView,
    parsed: Option<Seq<TabView>>,
)
    requires
        s.mode matches Mode::UrlInput { cursor } && char_index_at(s.url_buffer, cursor as int)
            is Some,
        k.is_special,
        k.key == "Delete"@ || k.key == "Backspace"@,
    ensures
        ({
            let cursor = s.mode->UrlInput_cursor;
            let buf = s.url_buffer;
            let i = char_index_at(buf, cursor as int)->0;
            let outcome = command_outcome(s, "url_key:"@ + k.key, parsed);
            &&& key_input_outcome(s.mode, k) == (
                false,
                s.mode,
                seq![OutView::Command("url_key:"@ + k.key)],
            )
            &&& k.key == "Delete"@ && i < buf.len() ==> outcome == Some(
                (DisplayView { url_buffer: buf.remove(i), ..s }, Reply::Nothing),
            )
            &&& k.key == "Delete"@ && i == buf.len() ==> outcome == Some((s, Reply::Nothing))
            &&& k.key == "Backspace"@ && 0 < i && char_width(buf[i - 1]) == 1 ==> outcome == Some(
                (
                    DisplayView {
                        url_buffer: buf.remove(i - 1),
                        mode: Mode::UrlInput { cursor: (cursor - 1) as usize },
                        ..s
                    },
                    Reply::Nothing,
                ),
            )
            &&& k.key == "Backspace"@ && i == 0 ==> outcome == Some((s, Reply::Nothing))
        }),
{
    reveal_strlit("Delete");
    reveal_strlit("Backspace");
    reveal_strlit("Enter");
    reveal_strlit("Escape");
    reveal_strlit("c");
    assert("Delete"@.len() != "Backspace"@.len());
    assert("Delete"@.len() != "Enter"@.len());
    assert("Delete"@[0] != "Escape"@[0]);
    assert("Delete"@.len() != "c"@.len());
    assert("Backspace"@.len() != "Enter"@.len());
    assert("Backspace"@.len() != "Escape"@.len());
    assert("Backspace"@.len() != "c"@.len());
    reveal_strlit("url_key:");
    reveal_strlit("url_key:Delete");
    reveal_strlit("url_key:Backspace");
    assert("url_key:Delete"@ =~= "url_key:"@ + "Delete"@);
    assert("url_key:Backspace"@ =~= "url_key:"@ + "Backspace"@);
    lemma_url_key_command(s, k.key, parsed);
    let cursor = s.mode->UrlInput_cursor;
    let buf = s.url_buffer;
    let i = char_index_at(buf, cursor as int)->0;
    lemma_char_index_at_sound(buf, cursor as int);
    lemma_byte_len_take_le(buf, i);
    if i == buf.len() {
        assert(buf.take(i) =~= buf);
    }
    if i == 0 {
        assert(buf.take(0).len() == 0);
        assert(byte_len(buf.take(0)) == 0);
    }
    if 0 < i && char_width(buf[i - 1]) == 1 {
        assert(buf.take(i) =~= buf.take(i - 1).push(buf[i - 1]));
        lemma_byte_len_push(buf.take(i - 1), buf[i - 1]);
        lemma_char_index_at_unique(buf, cursor - 1, i - 1);
    }
}

} // verus!

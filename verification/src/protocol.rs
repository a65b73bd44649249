//! The wire protocol shared with the browser server: every message is an
//! envelope `{ type, payload, _t }`, and each payload has a fixed set of
//! members. This module holds the message and payload types and the mapping
//! of each payload to the JSON object that carries it.
use vstd::prelude::*;

use crate::json::{
    JsonValue, JsonNumber, JsonView, json_view, json_views, entry_views, json_str, json_int,
    distinct_keys, lemma_distinct_keys_concat, json_well_formed, lemma_items_well_formed,
    lemma_members_well_formed,
};
use crate::text::string_of;

pub mod types;

verus! {

// ─── Envelope ───────────────────────────────────────────────────────────────
/// A protocol message: its type name, its payload and the sender's clock in
/// milliseconds since the Unix epoch (`_t` on the wire).
#[derive(Debug)]
pub struct Message {
    pub msg_type: String,
    pub payload: JsonValue,
    pub timestamp: Option<i64>,
}

/// A message without its timestamp.
#[derive(Debug)]
pub struct MessageEnvelope {
    pub msg_type: String,
    pub payload: JsonValue,
}

#[verifier::external_type_specification]
#[verifier::external_body]
pub struct ExSystemTime(std::time::SystemTime);

#[verifier::external_type_specification]
#[verifier::external_body]
pub struct ExSystemTimeError(std::time::SystemTimeError);

/// `SystemTime::now`: the machine's clock; nothing is promised of it.
#[verifier::external_body]
fn system_time_now() -> std::time::SystemTime {
    std::time::SystemTime::now()
}

/// `SystemTime::duration_since(UNIX_EPOCH)`: fails when the clock reads
/// before the epoch; the duration depends on the clock.
#[verifier::external_body]
fn since_unix_epoch(t: &std::time::SystemTime) -> Result<
    std::time::Duration,
    std::time::SystemTimeError,
> {
    t.duration_since(std::time::UNIX_EPOCH)
}

/// `Duration::as_millis`: whole milliseconds of the duration.
#[verifier::external_body]
fn duration_as_millis(d: &std::time::Duration) -> u128 {
    d.as_millis()
}

/// The machine's clock in whole milliseconds since the Unix epoch; `None`
/// when it reads before the epoch.
fn clock_millis() -> Option<u128> {
    let now = system_time_now();
    match since_unix_epoch(&now) {
        Ok(d) => Some(duration_as_millis(&d)),
        Err(_) => None,
    }
}

/// The stamp of a clock reading (whole milliseconds since the Unix epoch,
/// `None` before the epoch): the reading truncated to `i64`, 0 before the
/// epoch.
pub open spec fn stamp_of(millis: Option<u128>) -> i64 {
    match millis {
        Some(m) => m as i64,
        None => 0,
    }
}

/// The stamp of a clock reading (see `stamp_of`).
pub fn timestamp_from(millis: Option<u128>) -> (r: i64)
    ensures
        r == stamp_of(millis),
{
    match millis {
        Some(m) => {
            #[verifier::truncate]
            (m as i64)
        },
        None => 0,
    }
}

/// Milliseconds since the Unix epoch by the machine's clock, 0 when the clock
/// reads before the epoch, truncated to `i64`: the stamp (`timestamp_from`)
/// of the clock's reading. The reading itself depends on the clock.
pub fn chrono_now() -> i64 {
    timestamp_from(clock_millis())
}

impl Message {
    /// A message of type `msg_type` with `payload`, stamped with the clock
    /// reading `millis` (see `stamp_of`).
    pub fn stamped(msg_type: &str, payload: JsonValue, millis: Option<u128>) -> (m: Message)
        ensures
            m.msg_type@ == msg_type@,
            m.payload == payload,
            m.timestamp == Some(stamp_of(millis)),
    {
        Message { msg_type: string_of(msg_type), payload, timestamp: Some(timestamp_from(millis)) }
    }

    /// A message of type `msg_type` with `payload`, stamped with the current
    /// time: the stamp (`stamped`) of the clock's reading.
    pub fn new(msg_type: &str, payload: JsonValue) -> (m: Message)
        ensures
            m.msg_type@ == msg_type@,
            m.payload == payload,
            m.timestamp is Some,
    {
        Message::stamped(msg_type, payload, clock_millis())
    }
}

// ─── Payload members ────────────────────────────────────────────────────────
/// The button that a click payload names when none is given.
pub fn default_button() -> (r: String)
    ensures
        r@ == "left"@,
{
    string_of("left")
}

/// Whether a flag is left out of a serialized payload.
pub fn is_false(b: &bool) -> (r: bool)
    ensures
        r == !*b,
{
    !*b
}

pub open spec fn u32_json(n: u32) -> JsonView {
    JsonView::PosInt(n as u64)
}

pub open spec fn i32_json(n: i32) -> JsonView {
    if n >= 0 {
        JsonView::PosInt(n as u64)
    } else {
        JsonView::NegInt(n as i64)
    }
}

/// The member `name` holding `v` as a string, or no member when `v` is `None`.
pub open spec fn opt_str_member(name: Seq<char>, v: Option<String>) -> Seq<
    (Seq<char>, JsonView),
> {
    match v {
        Some(s) => seq![(name, JsonView::Str(s@))],
        None => Seq::empty(),
    }
}

/// The member `name` holding `v`, or no member when `v` is false.
pub open spec fn flag_member(name: Seq<char>, v: bool) -> Seq<(Seq<char>, JsonView)> {
    if v {
        seq![(name, JsonView::Bool(true))]
    } else {
        Seq::empty()
    }
}

pub proof fn lemma_entry_views_push(s: Seq<(String, JsonValue)>, x: (String, JsonValue))
    ensures
        entry_views(s.push(x)) == entry_views(s).push((x.0@, json_view(x.1))),
    decreases s.len(),
{
    if s.len() == 0 {
        assert(s.push(x).drop_first() =~= Seq::<(String, JsonValue)>::empty());
        assert(entry_views(s.push(x)) =~= seq![(x.0@, json_view(x.1))] + entry_views(
            Seq::<(String, JsonValue)>::empty(),
        ));
        assert(entry_views(s.push(x)) =~= entry_views(s).push((x.0@, json_view(x.1))));
    } else {
        assert(s.push(x).drop_first() =~= s.drop_first().push(x));
        lemma_entry_views_push(s.drop_first(), x);
        assert(entry_views(s.push(x)) =~= entry_views(s).push((x.0@, json_view(x.1))));
    }
}

pub proof fn lemma_json_views_push(s: Seq<JsonValue>, x: JsonValue)
    ensures
        json_views(s.push(x)) == json_views(s).push(json_view(x)),
    decreases s.len(),
{
    if s.len() == 0 {
        assert(s.push(x).drop_first() =~= Seq::<JsonValue>::empty());
        assert(json_views(s.push(x)) =~= seq![json_view(x)] + json_views(
            Seq::<JsonValue>::empty(),
        ));
        assert(json_views(s.push(x)) =~= json_views(s).push(json_view(x)));
    } else {
        assert(s.push(x).drop_first() =~= s.drop_first().push(x));
        lemma_json_views_push(s.drop_first(), x);
        assert(json_views(s.push(x)) =~= json_views(s).push(json_view(x)));
    }
}

/// Appends the member `key: value` to an object under construction.
fn push_member(entries: &mut Vec<(String, JsonValue)>, key: &str, value: JsonValue)
    ensures
        entry_views(final(entries)@) == entry_views(old(entries)@).push((key@, value@)),
{
    let ghost before = entries@;
    let k = string_of(key);
    let ghost pair = (k, value);
    entries.push((k, value));
    proof {
        lemma_entry_views_push(before, pair);
    }
}

/// Appends the member `key` holding `v` as a string, when `v` is present.
fn push_opt_str(entries: &mut Vec<(String, JsonValue)>, key: &str, v: &Option<String>)
    ensures
        entry_views(final(entries)@) == entry_views(old(entries)@) + opt_str_member(key@, *v),
{
    match v {
        Some(s) => {
            push_member(entries, key, json_str(s.clone()));
            assert(entry_views(entries@) =~= entry_views(old(entries)@) + opt_str_member(
                key@,
                *v,
            ));
        },
        None => {
            assert(entry_views(entries@) =~= entry_views(old(entries)@) + opt_str_member(
                key@,
                *v,
            ));
        },
    }
}

/// Appends the member `key: true` when `flag` is set.
fn push_flag(entries: &mut Vec<(String, JsonValue)>, key: &str, flag: bool)
    ensures
        entry_views(final(entries)@) == entry_views(old(entries)@) + flag_member(key@, flag),
{
    if !is_false(&flag) {
        push_member(entries, key, JsonValue::Bool(flag));
    }
    assert(entry_views(entries@) =~= entry_views(old(entries)@) + flag_member(key@, flag));
}

fn json_u32(n: u32) -> (r: JsonValue)
    ensures
        r@ == u32_json(n),
{
    JsonValue::Number(JsonNumber::PosInt(n as u64))
}

fn json_i32(n: i32) -> (r: JsonValue)
    ensures
        r@ == i32_json(n),
{
    json_int(n as i64)
}

fn new_object() -> (r: Vec<(String, JsonValue)>)
    ensures
        entry_views(r@) == Seq::<(Seq<char>, JsonView)>::empty(),
{
    let r: Vec<(String, JsonValue)> = Vec::new();
    assert(entry_views(r@) =~= Seq::<(Seq<char>, JsonView)>::empty());
    r
}

/// A value that holds no array or object.
pub open spec fn is_scalar(v: JsonView) -> bool {
    !(v is Array) && !(v is Object)
}

/// Members with distinct keys, none of them `tab_id`, followed by an optional
/// `tab_id` member, have distinct keys.
proof fn lemma_with_tab_id(entries: Seq<(Seq<char>, JsonView)>, tab: Option<String>)
    requires
        distinct_keys(entries),
        forall|i: int| 0 <= i < entries.len() ==> (#[trigger] entries[i]).0 != "tab_id"@,
    ensures
        distinct_keys(entries + opt_str_member("tab_id"@, tab)),
{
    lemma_distinct_keys_concat(entries, opt_str_member("tab_id"@, tab));
}

/// An object whose members hold scalars under distinct keys is well formed.
proof fn lemma_flat_object(entries: Seq<(Seq<char>, JsonView)>)
    requires
        distinct_keys(entries),
        forall|i: int| 0 <= i < entries.len() ==> is_scalar((#[trigger] entries[i]).1),
    ensures
        JsonView::Object(entries).well_formed(),
{
    assert forall|i: int| 0 <= i < entries.len() implies json_well_formed(
        (#[trigger] entries[i]).1,
    ) by {
        assert(is_scalar(entries[i].1));
    }
    lemma_members_well_formed(entries);
}

// ─── Payloads ───────────────────────────────────────────────────────────────
/// A payload with a fixed JSON form.
pub trait ToPayload {
    /// The JSON object that carries this payload.
    spec fn payload_view(&self) -> JsonView;

    /// Builds the JSON object that carries this payload.
    fn to_payload(&self) -> (r: JsonValue)
        ensures
            r@ == self.payload_view(),
            r@.well_formed(),
    ;
}

/// The JSON form of any payload.
pub fn to_payload<T: ToPayload>(val: &T) -> (r: JsonValue)
    ensures
        r@ == val.payload_view(),
        r@.well_formed(),
{
    val.to_payload()
}

#[derive(Debug, Clone)]
pub struct NavigatePayload {
    pub url: String,
    pub tab_id: Option<String>,
}

impl ToPayload for NavigatePayload {
    open spec fn payload_view(&self) -> JsonView {
        JsonView::Object(
            seq![("url"@, JsonView::Str(self.url@))] + opt_str_member("tab_id"@, self.tab_id),
        )
    }

    fn to_payload(&self) -> (r: JsonValue) {
        proof {
            reveal_strlit("url");
            reveal_strlit("tab_id");
            assert("url"@.len() != "tab_id"@.len());
            let m = seq![("url"@, JsonView::Str(self.url@))];
            assert(distinct_keys(m));
            lemma_with_tab_id(m, self.tab_id);
            lemma_flat_object(m + opt_str_member("tab_id"@, self.tab_id));
        }
        let mut e = new_object();
        push_member(&mut e, "url", json_str(self.url.clone()));
        push_opt_str(&mut e, "tab_id", &self.tab_id);
        let r = JsonValue::Object(e);
        assert(entry_views(e@) =~= seq![("url"@, JsonView::Str(self.url@))] + opt_str_member(
            "tab_id"@,
            self.tab_id,
        ));
        r
    }
}

#[derive(Debug, Clone)]
pub struct ClickPayload {
    pub x: u32,
    pub y: u32,
    pub button: String,
    pub tab_id: Option<String>,
}

/// The members `x`, `y` and `button`, as the pointer payloads carry them.
pub open spec fn pointer_members(x: u32, y: u32, button: Seq<char>) -> Seq<
    (Seq<char>, JsonView),
> {
    seq![("x"@, u32_json(x)), ("y"@, u32_json(y)), ("button"@, JsonView::Str(button))]
}

fn pointer_object(x: u32, y: u32, button: &String, tab_id: &Option<String>) -> (r: JsonValue)
    ensures
        r@ == JsonView::Object(pointer_members(x, y, button@) + opt_str_member("tab_id"@, *tab_id)),
        r@.well_formed(),
{
    proof {
        reveal_strlit("x");
        reveal_strlit("y");
        reveal_strlit("button");
        reveal_strlit("tab_id");
        let m = pointer_members(x, y, button@);
        assert("x"@[0] != "y"@[0]);
        assert("button"@[0] != "tab_id"@[0]);
        assert(distinct_keys(m));
        lemma_with_tab_id(m, *tab_id);
        lemma_flat_object(m + opt_str_member("tab_id"@, *tab_id));
    }
    let mut e = new_object();
    push_member(&mut e, "x", json_u32(x));
    push_member(&mut e, "y", json_u32(y));
    push_member(&mut e, "button", json_str(button.clone()));
    push_opt_str(&mut e, "tab_id", tab_id);
    assert(entry_views(e@) =~= pointer_members(x, y, button@) + opt_str_member(
        "tab_id"@,
        *tab_id,
    ));
    JsonValue::Object(e)
}

impl ToPayload for ClickPayload {
    open spec fn payload_view(&self) -> JsonView {
        JsonView::Object(
            pointer_members(self.x, self.y, self.button@) + opt_str_member("tab_id"@, self.tab_id),
        )
    }

    fn to_payload(&self) -> (r: JsonValue) {
        pointer_object(self.x, self.y, &self.button, &self.tab_id)
    }
}

#[derive(Debug, Clone)]
pub struct MouseDownPayload {
    pub x: u32,
    pub y: u32,
    pub button: String,
    pub tab_id: Option<String>,
}

impl ToPayload for MouseDownPayload {
    open spec fn payload_view(&self) -> JsonView {
        JsonView::Object(
            pointer_members(self.x, self.y, self.button@) + opt_str_member("tab_id"@, self.tab_id),
        )
    }

    fn to_payload(&self) -> (r: JsonValue) {
        pointer_object(self.x, self.y, &self.button, &self.tab_id)
    }
}

#[derive(Debug, Clone)]
pub struct MouseMovePayload {
    pub x: u32,
    pub y: u32,
    pub tab_id: Option<String>,
}

impl ToPayload for MouseMovePayload {
    open spec fn payload_view(&self) -> JsonView {
        JsonView::Object(
            seq![("x"@, u32_json(self.x)), ("y"@, u32_json(self.y))] + opt_str_member(
                "tab_id"@,
                self.tab_id,
            ),
        )
    }

    fn to_payload(&self) -> (r: JsonValue) {
        proof {
            reveal_strlit("x");
            reveal_strlit("y");
            reveal_strlit("tab_id");
            assert("x"@.len() != "tab_id"@.len());
            assert("y"@.len() != "tab_id"@.len());
            assert("x"@[0] != "y"@[0]);
            let m = seq![("x"@, u32_json(self.x)), ("y"@, u32_json(self.y))];
            assert(distinct_keys(m));
            lemma_with_tab_id(m, self.tab_id);
            lemma_flat_object(m + opt_str_member("tab_id"@, self.tab_id));
        }
        let mut e = new_object();
        push_member(&mut e, "x", json_u32(self.x));
        push_member(&mut e, "y", json_u32(self.y));
        push_opt_str(&mut e, "tab_id", &self.tab_id);
        assert(entry_views(e@) =~= seq![("x"@, u32_json(self.x)), ("y"@, u32_json(self.y))]
            + opt_str_member("tab_id"@, self.tab_id));
        JsonValue::Object(e)
    }
}

#[derive(Debug, Clone)]
pub struct MouseUpPayload {
    pub x: u32,
    pub y: u32,
    pub button: String,
    pub tab_id: Option<String>,
}

impl ToPayload for MouseUpPayload {
    open spec fn payload_view(&self) -> JsonView {
        JsonView::Object(
            pointer_members(self.x, self.y, self.button@) + opt_str_member("tab_id"@, self.tab_id),
        )
    }

    fn to_payload(&self) -> (r: JsonValue) {
        pointer_object(self.x, self.y, &self.button, &self.tab_id)
    }
}

#[derive(Debug, Clone)]
pub struct ScrollPayload {
    pub delta_x: i32,
    pub delta_y: i32,
    pub tab_id: Option<String>,
}

impl ToPayload for ScrollPayload {
    open spec fn payload_view(&self) -> JsonView {
        JsonView::Object(
            seq![("delta_x"@, i32_json(self.delta_x)), ("delta_y"@, i32_json(self.delta_y))]
                + opt_str_member("tab_id"@, self.tab_id),
        )
    }

    fn to_payload(&self) -> (r: JsonValue) {
        proof {
            reveal_strlit("delta_x");
            reveal_strlit("delta_y");
            reveal_strlit("tab_id");
            assert("delta_x"@.len() != "tab_id"@.len());
            assert("delta_y"@.len() != "tab_id"@.len());
            assert("delta_x"@[6] != "delta_y"@[6]);
            let m = seq![("delta_x"@, i32_json(self.delta_x)), ("delta_y"@, i32_json(self.delta_y))];
            assert(distinct_keys(m));
            lemma_with_tab_id(m, self.tab_id);
            lemma_flat_object(m + opt_str_member("tab_id"@, self.tab_id));
        }
        let mut e = new_object();
        push_member(&mut e, "delta_x", json_i32(self.delta_x));
        push_member(&mut e, "delta_y", json_i32(self.delta_y));
        push_opt_str(&mut e, "tab_id", &self.tab_id);
        assert(entry_views(e@) =~= seq![
            ("delta_x"@, i32_json(self.delta_x)),
            ("delta_y"@, i32_json(self.delta_y)),
        ] + opt_str_member("tab_id"@, self.tab_id));
        JsonValue::Object(e)
    }
}

/// The members `name: text` and, when present, `tab_id`.
fn text_object(name: &str, text: &String, tab_id: &Option<String>) -> (r: JsonValue)
    ensures
        r@ == JsonView::Object(
            seq![(name@, JsonView::Str(text@))] + opt_str_member("tab_id"@, *tab_id),
        ),
{
    let mut e = new_object();
    push_member(&mut e, name, json_str(text.clone()));
    push_opt_str(&mut e, "tab_id", tab_id);
    assert(entry_views(e@) =~= seq![(name@, JsonView::Str(text@))] + opt_str_member(
        "tab_id"@,
        *tab_id,
    ));
    JsonValue::Object(e)
}

#[derive(Debug, Clone)]
pub struct TypePayload {
    pub text: String,
    pub tab_id: Option<String>,
}

impl ToPayload for TypePayload {
    open spec fn payload_view(&self) -> JsonView {
        JsonView::Object(
            seq![("text"@, JsonView::Str(self.text@))] + opt_str_member("tab_id"@, self.tab_id),
        )
    }

    fn to_payload(&self) -> (r: JsonValue) {
        proof {
            reveal_strlit("text");
            reveal_strlit("tab_id");
            assert("text"@.len() != "tab_id"@.len());
            let m = seq![("text"@, JsonView::Str(self.text@))];
            assert(distinct_keys(m));
            lemma_with_tab_id(m, self.tab_id);
            lemma_flat_object(m + opt_str_member("tab_id"@, self.tab_id));
        }
        text_object("text", &self.text, &self.tab_id)
    }
}

#[derive(Debug, Clone)]
pub struct KeyPressPayload {
    pub key: String,
    pub modifiers: Option<KeyModifiers>,
    pub tab_id: Option<String>,
}

impl ToPayload for KeyPressPayload {
    open spec fn payload_view(&self) -> JsonView {
        JsonView::Object(
            seq![("key"@, JsonView::Str(self.key@))] + match self.modifiers {
                Some(m) => seq![("modifiers"@, m.payload_view())],
                None => Seq::empty(),
            } + opt_str_member("tab_id"@, self.tab_id),
        )
    }

    fn to_payload(&self) -> (r: JsonValue) {
        proof {
            reveal_strlit("key");
            reveal_strlit("modifiers");
            reveal_strlit("tab_id");
            assert("key"@.len() != "modifiers"@.len());
            assert("key"@.len() != "tab_id"@.len());
            assert("modifiers"@.len() != "tab_id"@.len());
            let head = seq![("key"@, JsonView::Str(self.key@))];
            let mods = match &self.modifiers {
                Some(m) => seq![("modifiers"@, m.payload_view())],
                None => Seq::empty(),
            };
            lemma_distinct_keys_concat(head, mods);
            lemma_with_tab_id(head + mods, self.tab_id);
            let e = head + mods + opt_str_member("tab_id"@, self.tab_id);
            if let Some(m) = &self.modifiers {
                lemma_modifiers_well_formed(*m);
            }
            assert forall|i: int| 0 <= i < e.len() implies json_well_formed((#[trigger] e[i]).1) by {
                if i == 1 && self.modifiers is Some {
                    assert(e[i] == mods[0]);
                }
            }
            lemma_members_well_formed(e);
        }
        let mut e = new_object();
        push_member(&mut e, "key", json_str(self.key.clone()));
        let ghost mid = entry_views(e@);
        match &self.modifiers {
            Some(m) => {
                push_member(&mut e, "modifiers", m.to_payload());
            },
            None => {},
        }
        let ghost with_mods = entry_views(e@);
        push_opt_str(&mut e, "tab_id", &self.tab_id);
        assert(with_mods =~= seq![("key"@, JsonView::Str(self.key@))] + match self.modifiers {
            Some(m) => seq![("modifiers"@, m.payload_view())],
            None => Seq::empty(),
        });
        assert(entry_views(e@) =~= seq![("key"@, JsonView::Str(self.key@))] + match self.modifiers {
            Some(m) => seq![("modifiers"@, m.payload_view())],
            None => Seq::empty(),
        } + opt_str_member("tab_id"@, self.tab_id));
        JsonValue::Object(e)
    }
}

/// Modifier keys held during a key press; only those held are sent.
#[derive(Debug, Clone)]
pub struct KeyModifiers {
    pub alt: bool,
    pub ctrl: bool,
    pub shift: bool,
    pub meta: bool,
}

impl Default for KeyModifiers {
    fn default() -> (r: Self)
        ensures
            !r.alt && !r.ctrl && !r.shift && !r.meta,
    {
        KeyModifiers { alt: false, ctrl: false, shift: false, meta: false }
    }
}

impl ToPayload for KeyModifiers {
    open spec fn payload_view(&self) -> JsonView {
        JsonView::Object(
            flag_member("alt"@, self.alt) + flag_member("ctrl"@, self.ctrl) + flag_member(
                "shift"@,
                self.shift,
            ) + flag_member("meta"@, self.meta),
        )
    }

    fn to_payload(&self) -> (r: JsonValue) {
        proof {
            lemma_modifiers_well_formed(*self);
        }
        let mut e = new_object();
        push_flag(&mut e, "alt", self.alt);
        push_flag(&mut e, "ctrl", self.ctrl);
        push_flag(&mut e, "shift", self.shift);
        push_flag(&mut e, "meta", self.meta);
        assert(entry_views(e@) =~= flag_member("alt"@, self.alt) + flag_member("ctrl"@, self.ctrl)
            + flag_member("shift"@, self.shift) + flag_member("meta"@, self.meta));
        JsonValue::Object(e)
    }
}

#[derive(Debug, Clone)]
pub struct ResizePayload {
    pub width: u32,
    pub height: u32,
}

impl ToPayload for ResizePayload {
    open spec fn payload_view(&self) -> JsonView {
        JsonView::Object(seq![("width"@, u32_json(self.width)), ("height"@, u32_json(self.height))])
    }

    fn to_payload(&self) -> (r: JsonValue) {
        proof {
            reveal_strlit("width");
            reveal_strlit("height");
            assert("width"@.len() != "height"@.len());
            let m = seq![("width"@, u32_json(self.width)), ("height"@, u32_json(self.height))];
            assert(distinct_keys(m));
            lemma_flat_object(m);
        }
        size_object(self.width, self.height)
    }
}

fn size_object(width: u32, height: u32) -> (r: JsonValue)
    ensures
        r@ == JsonView::Object(seq![("width"@, u32_json(width)), ("height"@, u32_json(height))]),
{
    let mut e = new_object();
    push_member(&mut e, "width", json_u32(width));
    push_member(&mut e, "height", json_u32(height));
    assert(entry_views(e@) =~= seq![("width"@, u32_json(width)), ("height"@, u32_json(height))]);
    JsonValue::Object(e)
}

#[derive(Debug, Clone)]
pub struct SetProxyPayload {
    pub server: String,
    pub username: Option<String>,
    pub password: Option<String>,
}

impl ToPayload for SetProxyPayload {
    open spec fn payload_view(&self) -> JsonView {
        JsonView::Object(
            seq![("server"@, JsonView::Str(self.server@))] + opt_str_member(
                "username"@,
                self.username,
            ) + opt_str_member("password"@, self.password),
        )
    }

    fn to_payload(&self) -> (r: JsonValue) {
        proof {
            reveal_strlit("server");
            reveal_strlit("username");
            reveal_strlit("password");
            assert("server"@.len() != "username"@.len());
            assert("server"@.len() != "password"@.len());
            assert("username"@[0] != "password"@[0]);
            let a = seq![("server"@, JsonView::Str(self.server@))];
            let u = opt_str_member("username"@, self.username);
            let pw = opt_str_member("password"@, self.password);
            lemma_distinct_keys_concat(a, u);
            lemma_distinct_keys_concat(a + u, pw);
            lemma_flat_object(a + u + pw);
        }
        let mut e = new_object();
        push_member(&mut e, "server", json_str(self.server.clone()));
        push_opt_str(&mut e, "username", &self.username);
        push_opt_str(&mut e, "password", &self.password);
        assert(entry_views(e@) =~= seq![("server"@, JsonView::Str(self.server@))] + opt_str_member(
            "username"@,
            self.username,
        ) + opt_str_member("password"@, self.password));
        JsonValue::Object(e)
    }
}

// ─── Server → Client Payloads ──────────────────────────────────────────────
/// A screenshot frame: `data` holds the base64 text of the JPEG bytes.
#[derive(Debug, Clone)]
pub struct FramePayload {
    pub data: String,
    pub encoding: String,
    pub width: u32,
    pub height: u32,
    pub tab_id: Option<String>,
}

impl ToPayload for FramePayload {
    open spec fn payload_view(&self) -> JsonView {
        JsonView::Object(
            seq![
                ("data"@, JsonView::Str(self.data@)),
                ("encoding"@, JsonView::Str(self.encoding@)),
                ("width"@, u32_json(self.width)),
                ("height"@, u32_json(self.height)),
            ] + opt_str_member("tab_id"@, self.tab_id),
        )
    }

    fn to_payload(&self) -> (r: JsonValue) {
        proof {
            reveal_strlit("data");
            reveal_strlit("encoding");
            reveal_strlit("width");
            reveal_strlit("height");
            reveal_strlit("tab_id");
            assert("data"@.len() != "encoding"@.len());
            assert("data"@.len() != "width"@.len());
            assert("data"@.len() != "height"@.len());
            assert("data"@.len() != "tab_id"@.len());
            assert("encoding"@.len() != "width"@.len());
            assert("encoding"@.len() != "height"@.len());
            assert("encoding"@.len() != "tab_id"@.len());
            assert("width"@.len() != "height"@.len());
            assert("width"@.len() != "tab_id"@.len());
            assert("height"@[0] != "tab_id"@[0]);
            let m = seq![("data"@, JsonView::Str(self.data@)), ("encoding"@, JsonView::Str(self.encoding@)), ("width"@, u32_json(self.width)), ("height"@, u32_json(self.height))];
            assert(distinct_keys(m));
            lemma_with_tab_id(m, self.tab_id);
            lemma_flat_object(m + opt_str_member("tab_id"@, self.tab_id));
        }
        let mut e = new_object();
        push_member(&mut e, "data", json_str(self.data.clone()));
        push_member(&mut e, "encoding", json_str(self.encoding.clone()));
        push_member(&mut e, "width", json_u32(self.width));
        push_member(&mut e, "height", json_u32(self.height));
        push_opt_str(&mut e, "tab_id", &self.tab_id);
        assert(entry_views(e@) =~= seq![
            ("data"@, JsonView::Str(self.data@)),
            ("encoding"@, JsonView::Str(self.encoding@)),
            ("width"@, u32_json(self.width)),
            ("height"@, u32_json(self.height)),
        ] + opt_str_member("tab_id"@, self.tab_id));
        JsonValue::Object(e)
    }
}

#[derive(Debug, Clone)]
pub struct UrlChangedPayload {
    pub url: String,
    pub title: String,
    pub tab_id: Option<String>,
}

impl ToPayload for UrlChangedPayload {
    open spec fn payload_view(&self) -> JsonView {
        JsonView::Object(
            seq![("url"@, JsonView::Str(self.url@)), ("title"@, JsonView::Str(self.title@))]
                + opt_str_member("tab_id"@, self.tab_id),
        )
    }

    fn to_payload(&self) -> (r: JsonValue) {
        proof {
            reveal_strlit("url");
            reveal_strlit("title");
            reveal_strlit("tab_id");
            assert("url"@.len() != "title"@.len());
            assert("url"@.len() != "tab_id"@.len());
            assert("title"@.len() != "tab_id"@.len());
            let m = seq![("url"@, JsonView::Str(self.url@)), ("title"@, JsonView::Str(self.title@))];
            assert(distinct_keys(m));
            lemma_with_tab_id(m, self.tab_id);
            lemma_flat_object(m + opt_str_member("tab_id"@, self.tab_id));
        }
        let mut e = new_object();
        push_member(&mut e, "url", json_str(self.url.clone()));
        push_member(&mut e, "title", json_str(self.title.clone()));
        push_opt_str(&mut e, "tab_id", &self.tab_id);
        assert(entry_views(e@) =~= seq![
            ("url"@, JsonView::Str(self.url@)),
            ("title"@, JsonView::Str(self.title@)),
        ] + opt_str_member("tab_id"@, self.tab_id));
        JsonValue::Object(e)
    }
}

#[derive(Debug, Clone)]
pub struct SessionInfoPayload {
    pub session_id: String,
    pub viewport: ViewportInfo,
    pub tabs: Vec<TabInfo>,
    pub url: String,
}

/// The JSON forms of a list of tabs.
pub open spec fn tab_list_json(tabs: Seq<TabInfo>) -> Seq<JsonView>
    decreases tabs.len(),
{
    if tabs.len() == 0 {
        Seq::empty()
    } else {
        tab_list_json(tabs.drop_last()).push(tabs.last().payload_view())
    }
}

impl ToPayload for SessionInfoPayload {
    open spec fn payload_view(&self) -> JsonView {
        JsonView::Object(
            seq![
                ("session_id"@, JsonView::Str(self.session_id@)),
                ("viewport"@, self.viewport.payload_view()),
                ("tabs"@, JsonView::Array(tab_list_json(self.tabs@))),
                ("url"@, JsonView::Str(self.url@)),
            ],
        )
    }

    fn to_payload(&self) -> (r: JsonValue) {
        proof {
            reveal_strlit("session_id");
            reveal_strlit("viewport");
            reveal_strlit("tabs");
            reveal_strlit("url");
            assert("session_id"@.len() != "viewport"@.len());
            assert("session_id"@.len() != "tabs"@.len());
            assert("session_id"@.len() != "url"@.len());
            assert("viewport"@.len() != "tabs"@.len());
            assert("viewport"@.len() != "url"@.len());
            assert("tabs"@.len() != "url"@.len());
            lemma_viewport_well_formed(self.viewport);
            lemma_tab_list_well_formed(self.tabs@);
            let e = seq![
                ("session_id"@, JsonView::Str(self.session_id@)),
                ("viewport"@, self.viewport.payload_view()),
                ("tabs"@, JsonView::Array(tab_list_json(self.tabs@))),
                ("url"@, JsonView::Str(self.url@)),
            ];
            assert(distinct_keys(e));
            assert forall|i: int| 0 <= i < e.len() implies json_well_formed((#[trigger] e[i]).1) by {
                if i == 0 {
                } else if i == 1 {
                } else if i == 2 {
                } else {
                }
            }
            lemma_members_well_formed(e);
        }
        let mut items: Vec<JsonValue> = Vec::new();
        let mut i: usize = 0;
        assert(json_views(items@) =~= Seq::<JsonView>::empty());
        assert(self.tabs@.take(0) =~= Seq::<TabInfo>::empty());
        while i < self.tabs.len()
            invariant
                i <= self.tabs.len(),
                json_views(items@) == tab_list_json(self.tabs@.take(i as int)),
            decreases self.tabs.len() - i,
        {
            let item = self.tabs[i].to_payload();
            proof {
                lemma_json_views_push(items@, item);
                assert(self.tabs@.take(i + 1).drop_last() =~= self.tabs@.take(i as int));
            }
            items.push(item);
            i = i + 1;
        }
        assert(self.tabs@.take(i as int) =~= self.tabs@);
        let mut e = new_object();
        push_member(&mut e, "session_id", json_str(self.session_id.clone()));
        push_member(&mut e, "viewport", self.viewport.to_payload());
        push_member(&mut e, "tabs", JsonValue::Array(items));
        push_member(&mut e, "url", json_str(self.url.clone()));
        assert(entry_views(e@) =~= seq![
            ("session_id"@, JsonView::Str(self.session_id@)),
            ("viewport"@, self.viewport.payload_view()),
            ("tabs"@, JsonView::Array(tab_list_json(self.tabs@))),
            ("url"@, JsonView::Str(self.url@)),
        ]);
        JsonValue::Object(e)
    }
}

#[derive(Debug, Clone)]
pub struct ViewportInfo {
    pub width: u32,
    pub height: u32,
}

impl ToPayload for ViewportInfo {
    open spec fn payload_view(&self) -> JsonView {
        JsonView::Object(seq![("width"@, u32_json(self.width)), ("height"@, u32_json(self.height))])
    }

    fn to_payload(&self) -> (r: JsonValue) {
        proof {
            lemma_viewport_well_formed(*self);
        }
        size_object(self.width, self.height)
    }
}

/// A browser tab as the protocol describes it.
#[derive(Debug, Clone)]
pub struct TabInfo {
    pub tab_id: String,
    pub url: String,
    pub title: String,
    pub active: bool,
}

impl ToPayload for TabInfo {
    open spec fn payload_view(&self) -> JsonView {
        JsonView::Object(
            seq![
                ("tab_id"@, JsonView::Str(self.tab_id@)),
                ("url"@, JsonView::Str(self.url@)),
                ("title"@, JsonView::Str(self.title@)),
                ("active"@, JsonView::Bool(self.active)),
            ],
        )
    }

    fn to_payload(&self) -> (r: JsonValue) {
        proof {
            lemma_tab_info_well_formed(*self);
        }
        let mut e = new_object();
        push_member(&mut e, "tab_id", json_str(self.tab_id.clone()));
        push_member(&mut e, "url", json_str(self.url.clone()));
        push_member(&mut e, "title", json_str(self.title.clone()));
        push_member(&mut e, "active", JsonValue::Bool(self.active));
        assert(entry_views(e@) =~= seq![
            ("tab_id"@, JsonView::Str(self.tab_id@)),
            ("url"@, JsonView::Str(self.url@)),
            ("title"@, JsonView::Str(self.title@)),
            ("active"@, JsonView::Bool(self.active)),
        ]);
        JsonValue::Object(e)
    }
}

#[derive(Debug, Clone)]
pub struct SwitchTabPayload {
    pub tab_id: String,
}

impl ToPayload for SwitchTabPayload {
    open spec fn payload_view(&self) -> JsonView {
        JsonView::Object(seq![("tab_id"@, JsonView::Str(self.tab_id@))])
    }

    fn to_payload(&self) -> (r: JsonValue) {
        proof {
            reveal_strlit("tab_id");
            let m = seq![("tab_id"@, JsonView::Str(self.tab_id@))];
            assert(distinct_keys(m));
            lemma_flat_object(m);
        }
        let mut e = new_object();
        push_member(&mut e, "tab_id", json_str(self.tab_id.clone()));
        assert(entry_views(e@) =~= seq![("tab_id"@, JsonView::Str(self.tab_id@))]);
        JsonValue::Object(e)
    }
}

#[derive(Debug, Clone)]
pub struct FindInPagePayload {
    pub text: String,
    pub tab_id: Option<String>,
}

impl ToPayload for FindInPagePayload {
    open spec fn payload_view(&self) -> JsonView {
        JsonView::Object(
            seq![("text"@, JsonView::Str(self.text@))] + opt_str_member("tab_id"@, self.tab_id),
        )
    }

    fn to_payload(&self) -> (r: JsonValue) {
        proof {
            reveal_strlit("text");
            reveal_strlit("tab_id");
            assert("text"@.len() != "tab_id"@.len());
            let m = seq![("text"@, JsonView::Str(self.text@))];
            assert(distinct_keys(m));
            lemma_with_tab_id(m, self.tab_id);
            lemma_flat_object(m + opt_str_member("tab_id"@, self.tab_id));
        }
        text_object("text", &self.text, &self.tab_id)
    }
}

#[derive(Debug, Clone)]
pub struct LoadingStatePayload {
    pub loading: bool,
    pub tab_id: Option<String>,
}

impl ToPayload for LoadingStatePayload {
    open spec fn payload_view(&self) -> JsonView {
        JsonView::Object(
            seq![("loading"@, JsonView::Bool(self.loading))] + opt_str_member(
                "tab_id"@,
                self.tab_id,
            ),
        )
    }

    fn to_payload(&self) -> (r: JsonValue) {
        proof {
            reveal_strlit("loading");
            reveal_strlit("tab_id");
            assert("loading"@.len() != "tab_id"@.len());
            let m = seq![("loading"@, JsonView::Bool(self.loading))];
            assert(distinct_keys(m));
            lemma_with_tab_id(m, self.tab_id);
            lemma_flat_object(m + opt_str_member("tab_id"@, self.tab_id));
        }
        let mut e = new_object();
        push_member(&mut e, "loading", JsonValue::Bool(self.loading));
        push_opt_str(&mut e, "tab_id", &self.tab_id);
        assert(entry_views(e@) =~= seq![("loading"@, JsonView::Bool(self.loading))]
            + opt_str_member("tab_id"@, self.tab_id));
        JsonValue::Object(e)
    }
}

#[derive(Debug, Clone)]
pub struct FindResultsPayload {
    pub text: String,
    pub found: bool,
    pub count: u32,
    pub tab_id: Option<String>,
}

impl ToPayload for FindResultsPayload {
    open spec fn payload_view(&self) -> JsonView {
        JsonView::Object(
            seq![
                ("text"@, JsonView::Str(self.text@)),
                ("found"@, JsonView::Bool(self.found)),
                ("count"@, u32_json(self.count)),
            ] + opt_str_member("tab_id"@, self.tab_id),
        )
    }

    fn to_payload(&self) -> (r: JsonValue) {
        proof {
            reveal_strlit("text");
            reveal_strlit("found");
            reveal_strlit("count");
            reveal_strlit("tab_id");
            assert("text"@.len() != "found"@.len());
            assert("text"@.len() != "count"@.len());
            assert("text"@.len() != "tab_id"@.len());
            assert("found"@.len() != "tab_id"@.len());
            assert("count"@.len() != "tab_id"@.len());
            assert("found"@[0] != "count"@[0]);
            let m = seq![("text"@, JsonView::Str(self.text@)), ("found"@, JsonView::Bool(self.found)), ("count"@, u32_json(self.count))];
            assert(distinct_keys(m));
            lemma_with_tab_id(m, self.tab_id);
            lemma_flat_object(m + opt_str_member("tab_id"@, self.tab_id));
        }
        let mut e = new_object();
        push_member(&mut e, "text", json_str(self.text.clone()));
        push_member(&mut e, "found", JsonValue::Bool(self.found));
        push_member(&mut e, "count", json_u32(self.count));
        push_opt_str(&mut e, "tab_id", &self.tab_id);
        assert(entry_views(e@) =~= seq![
            ("text"@, JsonView::Str(self.text@)),
            ("found"@, JsonView::Bool(self.found)),
            ("count"@, u32_json(self.count)),
        ] + opt_str_member("tab_id"@, self.tab_id));
        JsonValue::Object(e)
    }
}

#[derive(Debug, Clone)]
pub struct ErrorPayload {
    pub message: String,
    pub tab_id: Option<String>,
}

impl ToPayload for ErrorPayload {
    open spec fn payload_view(&self) -> JsonView {
        JsonView::Object(
            seq![("message"@, JsonView::Str(self.message@))] + opt_str_member(
                "tab_id"@,
                self.tab_id,
            ),
        )
    }

    fn to_payload(&self) -> (r: JsonValue) {
        proof {
            reveal_strlit("message");
            reveal_strlit("tab_id");
            assert("message"@.len() != "tab_id"@.len());
            let m = seq![("message"@, JsonView::Str(self.message@))];
            assert(distinct_keys(m));
            lemma_with_tab_id(m, self.tab_id);
            lemma_flat_object(m + opt_str_member("tab_id"@, self.tab_id));
        }
        text_object("message", &self.message, &self.tab_id)
    }
}

proof fn lemma_tab_info_well_formed(t: TabInfo)
    ensures
        t.payload_view().well_formed(),
{
    reveal_strlit("tab_id");
    reveal_strlit("url");
    reveal_strlit("title");
    reveal_strlit("active");
    assert("tab_id"@.len() != "url"@.len());
    assert("tab_id"@.len() != "title"@.len());
    assert("url"@.len() != "title"@.len());
    assert("url"@.len() != "active"@.len());
    assert("title"@.len() != "active"@.len());
    assert("tab_id"@[0] != "active"@[0]);
    let m = seq![("tab_id"@, JsonView::Str(t.tab_id@)), ("url"@, JsonView::Str(t.url@)), ("title"@, JsonView::Str(t.title@)), ("active"@, JsonView::Bool(t.active))];
    assert(distinct_keys(m));
    lemma_flat_object(m);
}

proof fn lemma_viewport_well_formed(v: ViewportInfo)
    ensures
        v.payload_view().well_formed(),
{
    reveal_strlit("width");
    reveal_strlit("height");
    assert("width"@.len() != "height"@.len());
    let m = seq![("width"@, u32_json(v.width)), ("height"@, u32_json(v.height))];
    assert(distinct_keys(m));
    lemma_flat_object(m);
}

/// The JSON form of the held modifiers is well formed.
proof fn lemma_modifiers_well_formed(m: KeyModifiers)
    ensures
        m.payload_view().well_formed(),
{
    reveal_strlit("alt");
    reveal_strlit("ctrl");
    reveal_strlit("shift");
    reveal_strlit("meta");
    assert("alt"@.len() != "ctrl"@.len());
    assert("alt"@.len() != "shift"@.len());
    assert("alt"@.len() != "meta"@.len());
    assert("ctrl"@.len() != "shift"@.len());
    assert("shift"@.len() != "meta"@.len());
    assert("ctrl"@[0] != "meta"@[0]);
    let a = flag_member("alt"@, m.alt);
    let c = flag_member("ctrl"@, m.ctrl);
    let sh = flag_member("shift"@, m.shift);
    let me = flag_member("meta"@, m.meta);
    lemma_distinct_keys_concat(a, c);
    lemma_distinct_keys_concat(a + c, sh);
    lemma_distinct_keys_concat(a + c + sh, me);
    lemma_flat_object(a + c + sh + me);
}

/// The JSON forms of a tab list are well formed.
proof fn lemma_tab_list_well_formed(tabs: Seq<TabInfo>)
    ensures
        JsonView::Array(tab_list_json(tabs)).well_formed(),
    decreases tabs.len(),
{
    if tabs.len() > 0 {
        lemma_tab_list_well_formed(tabs.drop_last());
        lemma_tab_info_well_formed(tabs.last());
        let rest = tab_list_json(tabs.drop_last());
        let all = tab_list_json(tabs);
        assert(all == rest.push(tabs.last().payload_view()));
        lemma_items_well_formed(rest);
        lemma_items_well_formed(all);
        assert forall|i: int| 0 <= i < all.len() implies json_well_formed(#[trigger] all[i]) by {
            if i < rest.len() {
                assert(all[i] == rest[i]);
            } else {
                assert(all[i] == tabs.last().payload_view());
            }
        }
    }
}

} // verus!

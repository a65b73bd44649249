//! The JSON values that travel in message payloads, held as plain data so that
//! the logic reading and building payloads can be verified. Numbers keep the
//! three forms JSON numbers take on the wire: non-negative integers, negative
//! integers, and other numbers by their JSON text.
use vstd::prelude::*;

verus! {

/// A JSON number.
#[derive(Debug, Clone, PartialEq)]
pub enum JsonNumber {
    PosInt(u64),
    NegInt(i64),
    Float(String),
}

/// A JSON value. An object lists its members in order; in a well-formed
/// value (see `JsonView::well_formed`) a key occurs once in an object.
#[derive(Debug, PartialEq)]
pub enum JsonValue {
    Null,
    Bool(bool),
    Number(JsonNumber),
    Str(String),
    Array(Vec<JsonValue>),
    Object(Vec<(String, JsonValue)>),
}

/// The mathematical form of a JSON value.
pub enum JsonView {
    Null,
    Bool(bool),
    PosInt(u64),
    NegInt(i64),
    Float(Seq<char>),
    Str(Seq<char>),
    Array(Seq<JsonView>),
    Object(Seq<(Seq<char>, JsonView)>),
}

pub open spec fn json_view(v: JsonValue) -> JsonView
    decreases v,
{
    match v {
        JsonValue::Null => JsonView::Null,
        JsonValue::Bool(b) => JsonView::Bool(b),
        JsonValue::Number(JsonNumber::PosInt(n)) => JsonView::PosInt(n),
        JsonValue::Number(JsonNumber::NegInt(n)) => JsonView::NegInt(n),
        JsonValue::Number(JsonNumber::Float(t)) => JsonView::Float(t@),
        JsonValue::Str(s) => JsonView::Str(s@),
        JsonValue::Array(items) => JsonView::Array(json_views(items@)),
        JsonValue::Object(entries) => JsonView::Object(entry_views(entries@)),
    }
}

pub open spec fn json_views(s: Seq<JsonValue>) -> Seq<JsonView>
    decreases s,
{
    if s.len() == 0 {
        Seq::empty()
    } else {
        seq![json_view(s[0])] + json_views(s.drop_first())
    }
}

pub open spec fn entry_views(s: Seq<(String, JsonValue)>) -> Seq<(Seq<char>, JsonView)>
    decreases s,
{
    if s.len() == 0 {
        Seq::empty()
    } else {
        seq![(s[0].0@, json_view(s[0].1))] + entry_views(s.drop_first())
    }
}

impl View for JsonValue {
    type V = JsonView;

    open spec fn view(&self) -> JsonView {
        json_view(*self)
    }
}

/// The value of the first member named `key` among `entries`.
pub open spec fn find_member(entries: Seq<(Seq<char>, JsonView)>, key: Seq<char>) -> Option<
    JsonView,
>
    decreases entries.len(),
{
    if entries.len() == 0 {
        None
    } else if entries[0].0 == key {
        Some(entries[0].1)
    } else {
        find_member(entries.drop_first(), key)
    }
}

/// No key occurs twice among `entries`.
pub open spec fn distinct_keys(entries: Seq<(Seq<char>, JsonView)>) -> bool {
    forall|i: int, j: int|
        0 <= i < entries.len() && 0 <= j < entries.len() && i != j ==> #[trigger] entries[i].0
            != #[trigger] entries[j].0
}

/// A member named `key` among `entries` whose keys are distinct is the one
/// that a lookup of `key` finds.
pub proof fn lemma_find_member_distinct(entries: Seq<(Seq<char>, JsonView)>, i: int)
    requires
        distinct_keys(entries),
        0 <= i < entries.len(),
    ensures
        find_member(entries, entries[i].0) == Some(entries[i].1),
    decreases i,
{
    if i > 0 {
        let rest = entries.drop_first();
        assert(entries[0].0 != entries[i].0);
        assert forall|a: int, b: int|
            0 <= a < rest.len() && 0 <= b < rest.len() && a != b implies #[trigger] rest[a].0
            != #[trigger] rest[b].0 by {
            assert(rest[a] == entries[a + 1]);
            assert(rest[b] == entries[b + 1]);
        }
        assert(rest[i - 1] == entries[i]);
        lemma_find_member_distinct(rest, i - 1);
    }
}

/// Entries with distinct keys, followed by entries with distinct keys none of
/// which occurs before, have distinct keys.
pub proof fn lemma_distinct_keys_concat(
    a: Seq<(Seq<char>, JsonView)>,
    b: Seq<(Seq<char>, JsonView)>,
)
    requires
        distinct_keys(a),
        distinct_keys(b),
        forall|i: int, j: int| 0 <= i < a.len() && 0 <= j < b.len() ==> a[i].0 != b[j].0,
    ensures
        distinct_keys(a + b),
{
    let c = a + b;
    assert forall|i: int, j: int|
        0 <= i < c.len() && 0 <= j < c.len() && i != j implies #[trigger] c[i].0
        != #[trigger] c[j].0 by {
        if i < a.len() && j >= a.len() {
            assert(c[j] == b[j - a.len()]);
        } else if i >= a.len() && j < a.len() {
            assert(c[i] == b[i - a.len()]);
        } else if i >= a.len() {
            assert(c[i] == b[i - a.len()]);
            assert(c[j] == b[j - a.len()]);
        }
    }
}

/// A key occurs at most once in each object of `v`.
pub open spec fn json_well_formed(v: JsonView) -> bool
    decreases v,
{
    match v {
        JsonView::Array(items) => items_well_formed(items),
        JsonView::Object(entries) => distinct_keys(entries) && members_well_formed(entries),
        _ => true,
    }
}

/// Every item of `items` is well formed.
pub open spec fn items_well_formed(items: Seq<JsonView>) -> bool
    decreases items,
{
    if items.len() == 0 {
        true
    } else {
        json_well_formed(items[0]) && items_well_formed(items.drop_first())
    }
}

/// Every member value of `entries` is well formed.
pub open spec fn members_well_formed(entries: Seq<(Seq<char>, JsonView)>) -> bool
    decreases entries,
{
    if entries.len() == 0 {
        true
    } else {
        json_well_formed(entries[0].1) && members_well_formed(entries.drop_first())
    }
}

pub proof fn lemma_items_well_formed(items: Seq<JsonView>)
    ensures
        items_well_formed(items) <==> forall|i: int|
            0 <= i < items.len() ==> json_well_formed(#[trigger] items[i]),
    decreases items.len(),
{
    if items.len() > 0 {
        let rest = items.drop_first();
        lemma_items_well_formed(rest);
        assert forall|i: int| 0 < i < items.len() implies items[i] == rest[i - 1] by {}
        if forall|i: int| 0 <= i < items.len() ==> json_well_formed(#[trigger] items[i]) {
            assert forall|i: int| 0 <= i < rest.len() implies json_well_formed(
                #[trigger] rest[i],
            ) by {
                assert(rest[i] == items[i + 1]);
            }
        }
    }
}

pub proof fn lemma_members_well_formed(entries: Seq<(Seq<char>, JsonView)>)
    ensures
        members_well_formed(entries) <==> forall|i: int|
            0 <= i < entries.len() ==> json_well_formed((#[trigger] entries[i]).1),
    decreases entries.len(),
{
    if entries.len() > 0 {
        let rest = entries.drop_first();
        lemma_members_well_formed(rest);
        assert forall|i: int| 0 < i < entries.len() implies entries[i] == rest[i - 1] by {}
        if forall|i: int| 0 <= i < entries.len() ==> json_well_formed((#[trigger] entries[i]).1) {
            assert forall|i: int| 0 <= i < rest.len() implies json_well_formed(
                (#[trigger] rest[i]).1,
            ) by {
                assert(rest[i] == entries[i + 1]);
            }
        }
    }
}

impl JsonView {
    /// A key occurs at most once in each object of the value, as in a JSON
    /// object map.
    pub open spec fn well_formed(self) -> bool {
        json_well_formed(self)
    }

    /// The member `key` of an object; `None` for a missing member or a non-object.
    pub open spec fn member(self, key: Seq<char>) -> Option<JsonView> {
        match self {
            JsonView::Object(entries) => find_member(entries, key),
            _ => None,
        }
    }

    pub open spec fn str_value(self) -> Option<Seq<char>> {
        match self {
            JsonView::Str(s) => Some(s),
            _ => None,
        }
    }

    pub open spec fn bool_value(self) -> Option<bool> {
        match self {
            JsonView::Bool(b) => Some(b),
            _ => None,
        }
    }

    /// The text of member `key` when it is present and a string.
    pub open spec fn member_str(self, key: Seq<char>) -> Option<Seq<char>> {
        match self.member(key) {
            Some(v) => v.str_value(),
            None => None,
        }
    }

    /// The flag of member `key` when it is present and a boolean.
    pub open spec fn member_bool(self, key: Seq<char>) -> Option<bool> {
        match self.member(key) {
            Some(v) => v.bool_value(),
            None => None,
        }
    }
}

pub proof fn lemma_json_views_index(s: Seq<JsonValue>, i: int)
    requires
        0 <= i < s.len(),
    ensures
        json_views(s).len() == s.len(),
        json_views(s)[i] == json_view(s[i]),
    decreases s.len(),
{
    lemma_json_views_len(s);
    if i > 0 {
        lemma_json_views_index(s.drop_first(), i - 1);
    }
}

pub proof fn lemma_json_views_len(s: Seq<JsonValue>)
    ensures
        json_views(s).len() == s.len(),
    decreases s.len(),
{
    if s.len() > 0 {
        lemma_json_views_len(s.drop_first());
    }
}

pub proof fn lemma_entry_views_index(s: Seq<(String, JsonValue)>, i: int)
    requires
        0 <= i < s.len(),
    ensures
        entry_views(s).len() == s.len(),
        entry_views(s)[i] == (s[i].0@, json_view(s[i].1)),
    decreases s.len(),
{
    lemma_entry_views_len(s);
    if i > 0 {
        lemma_entry_views_index(s.drop_first(), i - 1);
    }
}

pub proof fn lemma_entry_views_len(s: Seq<(String, JsonValue)>)
    ensures
        entry_views(s).len() == s.len(),
    decreases s.len(),
{
    if s.len() > 0 {
        lemma_entry_views_len(s.drop_first());
    }
}

proof fn lemma_entry_views_skip(s: Seq<(String, JsonValue)>, i: int)
    requires
        0 <= i <= s.len(),
    ensures
        entry_views(s).skip(i) == entry_views(s.skip(i)),
    decreases i,
{
    lemma_entry_views_len(s);
    lemma_entry_views_len(s.skip(i));
    if i > 0 {
        lemma_entry_views_skip(s.drop_first(), i - 1);
        assert(s.drop_first().skip(i - 1) =~= s.skip(i));
        assert(entry_views(s).skip(i) =~= entry_views(s.drop_first()).skip(i - 1));
    } else {
        assert(s.skip(0) =~= s);
        assert(entry_views(s).skip(0) =~= entry_views(s));
    }
}

impl JsonValue {
    /// `Value::get` with a string key: the member `key` of an object.
    pub fn get<'a>(&'a self, key: &str) -> (r: Option<&'a JsonValue>)
        ensures
            match r {
                Some(v) => self@.member(key@) == Some(v@),
                None => self@.member(key@) is None,
            },
    {
        match self {
            JsonValue::Object(entries) => {
                let ghost ev = entry_views(entries@);
                proof {
                    lemma_entry_views_len(entries@);
                    lemma_entry_views_skip(entries@, 0);
                    assert(entries@.skip(0) =~= entries@);
                }
                let mut i: usize = 0;
                while i < entries.len()
                    invariant
                        i <= entries.len(),
                        ev == entry_views(entries@),
                        ev.len() == entries.len(),
                        self@ == JsonView::Object(ev),
                        find_member(ev, key@) == find_member(ev.skip(i as int), key@),
                    decreases entries.len() - i,
                {
                    proof {
                        lemma_entry_views_index(entries@, i as int);
                        assert(ev.skip(i as int)[0] == ev[i as int]);
                        assert(ev.skip(i as int).drop_first() =~= ev.skip(i + 1));
                    }
                    if crate::text::str_eq(entries[i].0.as_str(), key) {
                        assert(find_member(ev.skip(i as int), key@) == Some(
                            json_view(entries@[i as int].1),
                        ));
                        return Some(&entries[i].1);
                    }
                    i = i + 1;
                }
                assert(ev.skip(i as int).len() == 0);
                None
            },
            _ => None,
        }
    }

    /// `Value::as_str`: the text of a string value.
    pub fn as_str(&self) -> (r: Option<&str>)
        ensures
            match r {
                Some(s) => self@.str_value() == Some(s@),
                None => self@.str_value() is None,
            },
    {
        match self {
            JsonValue::Str(s) => Some(s.as_str()),
            _ => None,
        }
    }

    /// `Value::as_bool`: the flag of a boolean value.
    pub fn as_bool(&self) -> (r: Option<bool>)
        ensures
            r == self@.bool_value(),
    {
        match self {
            JsonValue::Bool(b) => Some(*b),
            _ => None,
        }
    }

    /// `Value::as_array`: the items of an array value.
    pub fn as_array(&self) -> (r: Option<&Vec<JsonValue>>)
        ensures
            match r {
                Some(items) => self@ == JsonView::Array(json_views(items@)),
                None => !(self@ is Array),
            },
    {
        match self {
            JsonValue::Array(items) => Some(items),
            _ => None,
        }
    }
}

/// A string value.
pub fn json_str(s: String) -> (r: JsonValue)
    ensures
        r@ == JsonView::Str(s@),
{
    JsonValue::Str(s)
}

/// An integer value, in the form a JSON serializer gives a signed integer:
/// non-negative values as `PosInt`, negative ones as `NegInt`.
pub fn json_int(n: i64) -> (r: JsonValue)
    ensures
        r@ == (if n >= 0 {
            JsonView::PosInt(n as u64)
        } else {
            JsonView::NegInt(n)
        }),
{
    if n >= 0 {
        JsonValue::Number(JsonNumber::PosInt(n as u64))
    } else {
        JsonValue::Number(JsonNumber::NegInt(n))
    }
}

} // verus!

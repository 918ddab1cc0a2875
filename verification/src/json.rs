//! JSON documents.
//!
//! `serde_json` reads the text. The rules of this library then look at a value
//! of its own, [`Json`], which holds what they read of a document: its shape,
//! its texts, its flags and its whole numbers.

use vstd::prelude::*;

use crate::text;

verus! {

/// A JSON value. Of a number it holds what it is as an `i64`, where it is one;
/// an object holds its members in the order in which the document's map gives
/// them.
#[derive(Debug)]
pub enum Json {
    Null,
    Bool(bool),
    Number(Option<i64>),
    Text(String),
    List(Vec<Json>),
    Object(Vec<(String, Json)>),
}

/// What a JSON value is.
pub enum JsonView {
    Null,
    Bool(bool),
    Number(Option<i64>),
    Text(Seq<char>),
    List(Seq<JsonView>),
    Object(Seq<(Seq<char>, JsonView)>),
}

impl Json {
    /// What the value is.
    pub open spec fn shape(self) -> JsonView
        decreases self,
    {
        match self {
            Json::Null => JsonView::Null,
            Json::Bool(b) => JsonView::Bool(b),
            Json::Number(n) => JsonView::Number(n),
            Json::Text(s) => JsonView::Text(s@),
            Json::List(items) => JsonView::List(
                Seq::new(
                    items@.len(),
                    |i: int|
                        if 0 <= i < items@.len() {
                            items@[i].shape()
                        } else {
                            JsonView::Null
                        },
                ),
            ),
            Json::Object(members) => JsonView::Object(
                Seq::new(
                    members@.len(),
                    |i: int|
                        if 0 <= i < members@.len() {
                            (members@[i].0@, members@[i].1.shape())
                        } else {
                            (Seq::empty(), JsonView::Null)
                        },
                ),
            ),
        }
    }
}

impl View for Json {
    type V = JsonView;

    open spec fn view(&self) -> JsonView {
        self.shape()
    }
}

/// The value of the first member called `key`.
pub open spec fn member_of(members: Seq<(Seq<char>, JsonView)>, key: Seq<char>) -> Option<JsonView>
    decreases members.len(),
{
    if members.len() == 0 {
        None
    } else if members[0].0 == key {
        Some(members[0].1)
    } else {
        member_of(members.drop_first(), key)
    }
}

impl JsonView {
    /// The member called `key`, where the value is an object that has one.
    pub open spec fn member(self, key: Seq<char>) -> Option<JsonView> {
        match self {
            JsonView::Object(members) => member_of(members, key),
            _ => None,
        }
    }

    pub open spec fn text(self) -> Option<Seq<char>> {
        match self {
            JsonView::Text(s) => Some(s),
            _ => None,
        }
    }

    pub open spec fn flag(self) -> Option<bool> {
        match self {
            JsonView::Bool(b) => Some(b),
            _ => None,
        }
    }

    pub open spec fn integer(self) -> Option<i64> {
        match self {
            JsonView::Number(n) => n,
            _ => None,
        }
    }

    /// The text of the member called `key`.
    pub open spec fn member_text(self, key: Seq<char>) -> Option<Seq<char>> {
        match self.member(key) {
            Some(value) => value.text(),
            None => None,
        }
    }

    /// The flag of the member called `key`; `false` where there is none.
    pub open spec fn member_flag(self, key: Seq<char>) -> bool {
        match self.member(key) {
            Some(value) => value.flag() == Some(true),
            None => false,
        }
    }
}

// ---------------------------------------------------------------------------
// serde_json
// ---------------------------------------------------------------------------

/// A value of `serde_json`.
#[verifier::external_type_specification]
#[verifier::external_body]
pub struct ExValue(serde_json::Value);

/// What a value of `serde_json` holds.
pub uninterp spec fn value_contents(value: serde_json::Value) -> JsonView;

/// The document that `serde_json` reads from `bytes`, where they are one.
pub uninterp spec fn json_document(bytes: Seq<u8>) -> Option<JsonView>;

/// Calls `serde_json::from_slice`. It gives a value exactly where the bytes
/// are one JSON document, and the value holds that document.
#[verifier::external_body]
fn read_value(bytes: &[u8]) -> (r: Option<serde_json::Value>)
    ensures
        (match r {
            Some(value) => json_document(bytes@) == Some(value_contents(value)),
            None => json_document(bytes@) is None,
        }),
{
    serde_json::from_slice::<serde_json::Value>(bytes).ok()
}

/// Takes a `serde_json::Value` apart. The result holds what the value holds,
/// case by case: `Number::as_i64` for a number, and the members of a `Map` in
/// the order in which it is walked.
#[verifier::external_body]
fn json_of(value: serde_json::Value) -> (r: Json)
    ensures
        r@ == value_contents(value),
{
    match value {
        serde_json::Value::Null => Json::Null,
        serde_json::Value::Bool(b) => Json::Bool(b),
        serde_json::Value::Number(n) => Json::Number(n.as_i64()),
        serde_json::Value::String(s) => Json::Text(s),
        serde_json::Value::Array(items) => Json::List(items.into_iter().map(json_of).collect()),
        serde_json::Value::Object(map) => {
            Json::Object(map.into_iter().map(|(key, value)| (key, json_of(value))).collect())
        },
    }
}

/// The bytes that `serde_json` writes for a map from texts to texts.
pub uninterp spec fn text_map_bytes(entries: Seq<(Seq<char>, Seq<char>)>) -> Seq<u8>;

/// The keys and the values of a list of pairs.
pub open spec fn pairs(entries: Seq<(&str, &str)>) -> Seq<(Seq<char>, Seq<char>)> {
    entries.map_values(|entry: (&str, &str)| (entry.0@, entry.1@))
}

/// The object with the given texts as its members.
pub open spec fn text_object(entries: Seq<(Seq<char>, Seq<char>)>) -> JsonView {
    JsonView::Object(
        entries.map_values(|entry: (Seq<char>, Seq<char>)| (entry.0, JsonView::Text(entry.1))),
    )
}

/// Calls `serde_json::to_vec` on the `BTreeMap` of the entries, whose keys are in
/// ascending order. A map of texts is always written; the bytes are fixed by the
/// entries, and reading them gives an object with the entries as its members, in
/// the order of the keys.
#[verifier::external_body]
pub(crate) fn write_text_map(entries: &[(&str, &str)]) -> (r: Vec<u8>)
    requires
        forall|i: int, j: int|
            0 <= i < j < entries@.len() ==> text::text_less(
                (#[trigger] entries@[i]).0@,
                (#[trigger] entries@[j]).0@,
            ),
    ensures
        r@ == text_map_bytes(pairs(entries@)),
        json_document(r@) == Some(text_object(pairs(entries@))),
{
    let map: std::collections::BTreeMap<&str, &str> = entries.iter().copied().collect();
    serde_json::to_vec(&map).unwrap()
}

/// What an optional value is.
pub open spec fn opt_json(r: Option<Json>) -> Option<JsonView> {
    match r {
        Some(json) => Some(json@),
        None => None,
    }
}

/// The document that `bytes` hold, where they are one.
pub fn parse_json(bytes: &[u8]) -> (r: Option<Json>)
    ensures
        opt_json(r) == json_document(bytes@),
{
    match read_value(bytes) {
        Some(value) => Some(json_of(value)),
        None => None,
    }
}

impl Json {
    /// The member called `key`, where the value is an object that has one.
    pub fn get(&self, key: &str) -> (r: Option<&Json>)
        ensures
            match r {
                Some(value) => self@.member(key@) == Some(value@),
                None => self@.member(key@) is None,
            },
    {
        match self {
            Json::Object(members) => {
                let mut i: usize = 0;
                let ghost all = self@->Object_0;
                assert(all.skip(0) == all);
                while i < members.len()
                    invariant
                        *self is Object,
                        *self == Json::Object(*members),
                        self@ == JsonView::Object(all),
                        all.len() == members@.len(),
                        i <= members@.len(),
                        member_of(all, key@) == member_of(all.skip(i as int), key@),
                    decreases members@.len() - i,
                {
                    proof {
                        assert(all[i as int] == (members@[i as int].0@, members@[i as int].1@));
                        assert(all.skip(i as int)[0] == all[i as int]);
                        assert(all.skip(i as int).drop_first() == all.skip(i + 1));
                    }
                    if text::same(members[i].0.as_str(), key) {
                        return Some(&members[i].1);
                    }
                    i = i + 1;
                }
                None
            },
            _ => None,
        }
    }

    /// The text of a text.
    pub fn as_str(&self) -> (r: Option<&str>)
        ensures
            text::opt_str(r) == self@.text(),
    {
        match self {
            Json::Text(s) => Some(s.as_str()),
            _ => None,
        }
    }

    /// The number of a whole number that an `i64` holds.
    pub fn as_i64(&self) -> (r: Option<i64>)
        ensures
            r == self@.integer(),
    {
        match self {
            Json::Number(n) => *n,
            _ => None,
        }
    }

    /// The text of the member called `key`.
    pub fn get_text(&self, key: &str) -> (r: Option<String>)
        ensures
            text::opt_text(r) == self@.member_text(key@),
    {
        match self.get(key) {
            Some(Json::Text(s)) => Some(s.clone()),
            _ => None,
        }
    }

    /// The flag of the member called `key`; `false` where there is none.
    pub fn get_flag(&self, key: &str) -> (r: bool)
        ensures
            r == self@.member_flag(key@),
    {
        match self.get(key) {
            Some(Json::Bool(b)) => *b,
            _ => false,
        }
    }
}

/// The member that is found under a key is the first with that key; none is found only
/// where no member has it. What is no object has no members.
pub proof fn law_members_are_found_by_key(
    members: Seq<(Seq<char>, JsonView)>,
    key: Seq<char>,
    i: int,
)
    ensures
        0 <= i < members.len() && members[i].0 == key && (forall|j: int|
            0 <= j < i ==> (#[trigger] members[j]).0 != key) ==> JsonView::Object(members).member(
            key,
        ) == Some(members[i].1),
        (forall|j: int| 0 <= j < members.len() ==> (#[trigger] members[j]).0 != key)
            ==> JsonView::Object(members).member(key) is None,
    decreases members.len(),
{
    if members.len() > 0 {
        let rest = members.drop_first();
        law_members_are_found_by_key(rest, key, i - 1);
        if members[0].0 != key {
            if 0 < i < members.len() && members[i].0 == key && (forall|j: int|
                0 <= j < i ==> (#[trigger] members[j]).0 != key) {
                assert(rest[i - 1] == members[i]);
                assert forall|j: int| 0 <= j < i - 1 implies (#[trigger] rest[j]).0 != key by {
                    assert(rest[j] == members[j + 1]);
                }
            }
            if forall|j: int| 0 <= j < members.len() ==> (#[trigger] members[j]).0 != key {
                assert forall|j: int| 0 <= j < rest.len() implies (#[trigger] rest[j]).0 != key by {
                    assert(rest[j] == members[j + 1]);
                }
            }
        } else {
            if forall|j: int| 0 <= j < members.len() ==> (#[trigger] members[j]).0 != key {
                assert(members[0].0 != key);
            }
            if 0 < i && (forall|j: int| 0 <= j < i ==> (#[trigger] members[j]).0 != key) {
                assert(members[0].0 != key);
            }
        }
    }
}

} // verus!

//! JSON values: what is sent to the platform, and what is read in its answers.

use vstd::prelude::*;

use crate::text::same_text;

verus! {

/// A JSON value. A fractional number is held by the bits of its double-precision form.
#[derive(Debug)]
pub enum Json {
    Null,
    Bool(bool),
    Unsigned(u64),
    Negative(i64),
    Fraction(u64),
    Text(String),
    Array(Vec<Json>),
    Object(Vec<(String, Json)>),
}

/// The value of the first entry with a given key.
pub open spec fn entry_value(entries: Seq<(String, Json)>, key: Seq<char>) -> Option<Json>
    decreases entries.len(),
{
    if entries.len() == 0 {
        None
    } else if entries[0].0@ == key {
        Some(entries[0].1)
    } else {
        entry_value(entries.drop_first(), key)
    }
}

impl Json {
    /// The member of an object with a given key; `None` for any other value.
    pub open spec fn member(self, key: Seq<char>) -> Option<Json> {
        match self {
            Json::Object(entries) => entry_value(entries@, key),
            _ => None,
        }
    }

    /// The text of a string value.
    pub open spec fn as_text(self) -> Option<Seq<char>> {
        match self {
            Json::Text(s) => Some(s@),
            _ => None,
        }
    }

    /// The text of a member that is a string.
    pub open spec fn text_member(self, key: Seq<char>) -> Option<Seq<char>> {
        match self.member(key) {
            Some(value) => value.as_text(),
            None => None,
        }
    }

    /// The entries of an object.
    pub open spec fn entries(self) -> Seq<(String, Json)> {
        match self {
            Json::Object(entries) => entries@,
            _ => Seq::empty(),
        }
    }

    /// The text of a member that is a string.
    pub fn get_text(&self, key: &str) -> (r: Option<&str>)
        ensures
            crate::text::optional_str(r) == self.text_member(key@),
    {
        match self {
            Json::Object(entries) => {
                match position(entries, key) {
                    Some(i) => match &entries[i].1 {
                        Json::Text(s) => Some(s.as_str()),
                        _ => None,
                    },
                    None => None,
                }
            },
            _ => None,
        }
    }
}

fn position(entries: &Vec<(String, Json)>, key: &str) -> (r: Option<usize>)
    ensures
        match r {
            Some(i) => i < entries@.len() && entry_value(entries@, key@) == Some(
                entries@[i as int].1,
            ),
            None => entry_value(entries@, key@) is None,
        },
{
    let mut i: usize = 0;
    assert(entries@.skip(0) =~= entries@);
    while i < entries.len()
        invariant
            i <= entries.len(),
            entry_value(entries@, key@) == entry_value(entries@.skip(i as int), key@),
        decreases entries.len() - i,
    {
        assert(entries@.skip(i as int)[0] == entries@[i as int]);
        if same_text(entries[i].0.as_str(), key) {
            return Some(i);
        }
        assert(entries@.skip(i as int).drop_first() =~= entries@.skip(i + 1));
        i = i + 1;
    }
    None
}

/// The items of an array; any other value has none.
pub fn array_items(raw: Json) -> (r: Vec<Json>)
    ensures
        match raw {
            Json::Array(items) => r == items,
            _ => r@.len() == 0,
        },
{
    match raw {
        Json::Array(items) => items,
        _ => Vec::new(),
    }
}

/// The `session` member of an answer that wraps the session in one, or else the whole answer.
pub fn session_payload(raw: Json) -> (r: Json)
    ensures
        r == (match raw.member("session"@) {
            Some(session) => session,
            None => raw,
        }),
{
    match raw {
        Json::Object(entries) => {
            match position(&entries, "session") {
                Some(i) => {
                    let mut rest = entries;
                    let entry = rest.swap_remove(i);
                    entry.1
                },
                None => Json::Object(entries),
            }
        },
        other => other,
    }
}

// ---------------------------------------------------------------------------
// Building objects
// ---------------------------------------------------------------------------

/// Whether an entry maps `key` to the string `text`.
pub open spec fn is_text_entry(entry: (String, Json), key: Seq<char>, text: Seq<char>) -> bool {
    entry.0@ == key && entry.1.as_text() == Some(text)
}

/// Whether an entry maps `key` to an optional string: to null where there is none.
pub open spec fn is_optional_entry(
    entry: (String, Json),
    key: Seq<char>,
    text: Option<Seq<char>>,
) -> bool {
    match text {
        Some(t) => is_text_entry(entry, key, t),
        None => is_null_entry(entry, key),
    }
}

/// Whether an entry maps `key` to null.
pub open spec fn is_null_entry(entry: (String, Json), key: Seq<char>) -> bool {
    entry.0@ == key && entry.1 is Null
}

/// Whether an entry maps `key` to a value.
pub open spec fn is_entry(entry: (String, Json), key: Seq<char>, value: Json) -> bool {
    entry.0@ == key && entry.1 == value
}

pub fn text_entry(key: &str, text: &str) -> (r: (String, Json))
    ensures
        is_text_entry(r, key@, text@),
{
    (key.to_owned(), Json::Text(text.to_owned()))
}

pub fn optional_entry(key: &str, text: &Option<String>) -> (r: (String, Json))
    ensures
        is_optional_entry(r, key@, crate::text::optional_text(*text)),
{
    match text {
        Some(t) => text_entry(key, t.as_str()),
        None => null_entry(key),
    }
}

pub fn null_entry(key: &str) -> (r: (String, Json))
    ensures
        is_null_entry(r, key@),
{
    (key.to_owned(), Json::Null)
}

pub fn entry(key: &str, value: Json) -> (r: (String, Json))
    ensures
        is_entry(r, key@, value),
{
    (key.to_owned(), value)
}

/// A member of an object is the value of the first entry that carries its key; an object without
/// such an entry, and any other value, has no such member. A member that is no string has no
/// text.
pub proof fn a_member_is_the_first_entry_of_its_key(value: Json, key: Seq<char>)
    ensures
        match value {
            Json::Object(entries) => match value.member(key) {
                Some(found) => exists|i: int|
                    0 <= i < entries@.len() && (#[trigger] entries@[i]).0@ == key && entries@[i].1
                        == found && forall|j: int|
                        0 <= j < i ==> (#[trigger] entries@[j]).0@ != key,
                None => forall|i: int|
                    0 <= i < entries@.len() ==> (#[trigger] entries@[i]).0@ != key,
            },
            _ => value.member(key) is None,
        },
        value.text_member(key) == (match value.member(key) {
            Some(Json::Text(text)) => Some(text@),
            _ => None,
        }),
{
    if let Json::Object(entries) = value {
        lemma_first_entry(entries@, key);
    }
}

proof fn lemma_first_entry(entries: Seq<(String, Json)>, key: Seq<char>)
    ensures
        match entry_value(entries, key) {
            Some(found) => exists|i: int|
                0 <= i < entries.len() && (#[trigger] entries[i]).0@ == key && entries[i].1 == found
                    && forall|j: int| 0 <= j < i ==> (#[trigger] entries[j]).0@ != key,
            None => forall|i: int| 0 <= i < entries.len() ==> (#[trigger] entries[i]).0@ != key,
        },
    decreases entries.len(),
{
    if entries.len() > 0 && entries[0].0@ != key {
        let rest = entries.drop_first();
        lemma_first_entry(rest, key);
        match entry_value(entries, key) {
            Some(found) => {
                let i = choose|i: int|
                    0 <= i < rest.len() && (#[trigger] rest[i]).0@ == key && rest[i].1 == found
                        && forall|j: int| 0 <= j < i ==> (#[trigger] rest[j]).0@ != key;
                assert(entries[i + 1] == rest[i]);
                assert forall|j: int| 0 <= j < i + 1 implies (#[trigger] entries[j]).0@
                    != key by {
                    if j > 0 {
                        assert(entries[j] == rest[j - 1]);
                    }
                }
            },
            None => {
                assert forall|j: int| 0 <= j < entries.len() implies (#[trigger] entries[j]).0@
                    != key by {
                    if j > 0 {
                        assert(entries[j] == rest[j - 1]);
                    }
                }
            },
        }
    }
}

/// Only an array has items, and it keeps all of them; an answer is unwrapped where it has a
/// session in it, and only there.
pub proof fn answers_are_unwrapped(raw: Json, items: Vec<Json>, payload: Json)
    requires
        call_ensures(array_items, (raw,), items),
        call_ensures(session_payload, (raw,), payload),
    ensures
        raw matches Json::Array(list) ==> items@ == list@,
        !(raw is Array) ==> items@.len() == 0,
        raw.member("session"@) matches Some(inner) ==> payload == inner,
        raw.member("session"@) is None ==> payload == raw,
{
}

} // verus!

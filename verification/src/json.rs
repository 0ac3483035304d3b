//! JSON documents as the library reads and writes them.
//!
//! An object is a sequence of entries; looking a key up finds its first
//! entry, and inserting a key replaces the value of its first entry or
//! appends a new entry. Numbers are kept as unsigned or negative integers;
//! any other number is kept as its text.
use vstd::prelude::*;

use crate::text::{chars_eq, chars_of, string_of};

verus! {

pub enum JsonNumber {
    /// A non-negative integer.
    PosInt(u64),
    /// A negative integer.
    NegInt(i64),
    /// Any other number, as written in the document.
    Float(String),
}

pub struct JsonEntry {
    pub key: String,
    pub value: JsonValue,
}

pub enum JsonValue {
    Null,
    Bool(bool),
    Number(JsonNumber),
    String(String),
    Array(Vec<JsonValue>),
    Object(Vec<JsonEntry>),
}

/// Entry `i` is the first entry of `entries` with key `key`.
pub open spec fn first_key_at(entries: Seq<JsonEntry>, key: Seq<char>, i: int) -> bool {
    &&& 0 <= i < entries.len()
    &&& entries[i].key@ == key
    &&& forall|j: int| 0 <= j < i ==> entries[j].key@ != key
}

pub open spec fn has_key(entries: Seq<JsonEntry>, key: Seq<char>) -> bool {
    exists|i: int| first_key_at(entries, key, i)
}

/// The position of the first entry with key `key` (meaningful when `has_key`).
pub open spec fn key_position(entries: Seq<JsonEntry>, key: Seq<char>) -> int {
    choose|i: int| first_key_at(entries, key, i)
}

/// The value of the first entry with key `key`.
pub open spec fn lookup(entries: Seq<JsonEntry>, key: Seq<char>) -> Option<JsonValue> {
    if has_key(entries, key) {
        Some(entries[key_position(entries, key)].value)
    } else {
        None
    }
}

/// The member `key` of an object (`None` for a missing key or a value that is not an object).
pub open spec fn field(v: JsonValue, key: Seq<char>) -> Option<JsonValue> {
    match v {
        JsonValue::Object(entries) => lookup(entries@, key),
        _ => None,
    }
}

/// The entries of an object (none for any other value).
pub open spec fn entries_of(v: JsonValue) -> Seq<JsonEntry> {
    match v {
        JsonValue::Object(e) => e@,
        _ => Seq::empty(),
    }
}

/// The text of a string value.
pub open spec fn text_of(v: Option<JsonValue>) -> Option<Seq<char>> {
    match v {
        Some(JsonValue::String(s)) => Some(s@),
        _ => None,
    }
}

/// The entries after `key` is set to `value`: the first entry with that key
/// gets the new value, or a new entry is appended.
pub open spec fn inserted(old_entries: Seq<JsonEntry>, new_entries: Seq<JsonEntry>, key: Seq<char>, value: JsonValue) -> bool {
    if has_key(old_entries, key) {
        let i = key_position(old_entries, key);
        new_entries == old_entries.update(i, JsonEntry { key: old_entries[i].key, value })
    } else {
        &&& new_entries.len() == old_entries.len() + 1
        &&& new_entries.take(old_entries.len() as int) == old_entries
        &&& new_entries.last().key@ == key
        &&& new_entries.last().value == value
    }
}

/// `new_entries` is `old_entries` with `key` set to a string holding `text`.
pub open spec fn set_to_text(old_entries: Seq<JsonEntry>, new_entries: Seq<JsonEntry>, key: Seq<char>, text: Seq<char>) -> bool {
    exists|s: String| s@ == text && inserted(old_entries, new_entries, key, JsonValue::String(s))
}

/// `a` and `b` are the same JSON document: the same structure, with equal
/// texts wherever a string, a key or the text of a number stands (the two
/// documents may hold those texts in different `String`s).
pub open spec fn same_json(a: JsonValue, b: JsonValue) -> bool
    decreases a,
{
    a == b || match a {
        JsonValue::String(x) => b matches JsonValue::String(y) && x@ == y@,
        JsonValue::Number(JsonNumber::Float(x)) => b matches JsonValue::Number(
            JsonNumber::Float(y),
        ) && x@ == y@,
        JsonValue::Array(xs) => b matches JsonValue::Array(ys) && xs@.len() == ys@.len() && forall|
            k: int,
        |
            #![trigger xs@[k]]
            0 <= k < xs@.len() ==> same_json(xs@[k], ys@[k]),
        JsonValue::Object(xs) => b matches JsonValue::Object(ys) && xs@.len() == ys@.len()
            && forall|k: int|
            #![trigger xs@[k]]
            0 <= k < xs@.len() ==> xs@[k].key@ == ys@[k].key@ && same_json(
                xs@[k].value,
                ys@[k].value,
            ),
        _ => false,
    }
}

pub proof fn lemma_first_key_unique(entries: Seq<JsonEntry>, key: Seq<char>, i: int, j: int)
    requires
        first_key_at(entries, key, i),
        first_key_at(entries, key, j),
    ensures
        i == j,
{
}

/// Some entry with key `key` means that there is a first one.
pub proof fn lemma_key_has_first(entries: Seq<JsonEntry>, key: Seq<char>, j: int)
    requires
        0 <= j < entries.len(),
        entries[j].key@ == key,
    ensures
        has_key(entries, key),
    decreases j,
{
    if exists|k: int| 0 <= k < j && entries[k].key@ == key {
        let k = choose|k: int| 0 <= k < j && entries[k].key@ == key;
        lemma_key_has_first(entries, key, k);
    } else {
        assert(first_key_at(entries, key, j));
    }
}

/// After setting `key`, looking `key` up gives the new value, and every other
/// key keeps its value.
pub proof fn lemma_lookup_after_insert(old_entries: Seq<JsonEntry>, new_entries: Seq<JsonEntry>, key: Seq<char>, value: JsonValue, other: Seq<char>)
    requires
        inserted(old_entries, new_entries, key, value),
    ensures
        lookup(new_entries, key) == Some(value),
        other != key ==> lookup(new_entries, other) == lookup(old_entries, other),
{
    if has_key(old_entries, key) {
        let i = key_position(old_entries, key);
        assert(forall|j: int| 0 <= j < new_entries.len() ==> new_entries[j].key@ == old_entries[j].key@);
        assert(first_key_at(new_entries, key, i));
        assert(has_key(new_entries, key));
        lemma_first_key_unique(new_entries, key, i, key_position(new_entries, key));
        if other != key {
            if has_key(old_entries, other) {
                let k = key_position(old_entries, other);
                assert(first_key_at(new_entries, other, k));
                lemma_first_key_unique(new_entries, other, k, key_position(new_entries, other));
            }
            if has_key(new_entries, other) {
                let k = key_position(new_entries, other);
                assert(first_key_at(old_entries, other, k));
            }
        }
    } else {
        let n = old_entries.len() as int;
        assert forall|j: int| 0 <= j < n implies new_entries[j] == old_entries[j] by {
            assert(new_entries.take(n)[j] == new_entries[j]);
        }
        assert forall|j: int| 0 <= j < n implies new_entries[j].key@ != key by {
            if new_entries[j].key@ == key {
                lemma_key_has_first(old_entries, key, j);
            }
        }
        assert(first_key_at(new_entries, key, n));
        lemma_first_key_unique(new_entries, key, n, key_position(new_entries, key));
        if other != key {
            if has_key(old_entries, other) {
                let k = key_position(old_entries, other);
                assert(first_key_at(new_entries, other, k));
                lemma_first_key_unique(new_entries, other, k, key_position(new_entries, other));
            }
            if has_key(new_entries, other) {
                let k = key_position(new_entries, other);
                assert(k < n);
                assert(first_key_at(old_entries, other, k));
            }
        }
    }
}

/// Whether the entry key `k` holds the characters `key`.
fn key_is(k: &String, key: &Vec<char>) -> (b: bool)
    ensures
        b == (k@ == key@),
{
    let kc = chars_of(k.as_str());
    chars_eq(&kc, key)
}

/// The position of the first entry with key `key`.
pub fn find_key(entries: &Vec<JsonEntry>, key: &str) -> (r: Option<usize>)
    ensures
        match r {
            Some(i) => first_key_at(entries@, key@, i as int) && key_position(entries@, key@) == i,
            None => !has_key(entries@, key@),
        },
{
    let kc = chars_of(key);
    let n = entries.len();
    for i in 0..n
        invariant
            n == entries.len(),
            kc@ == key@,
            forall|j: int| 0 <= j < i ==> entries@[j].key@ != key@,
    {
        if key_is(&entries[i].key, &kc) {
            proof {
                assert(first_key_at(entries@, key@, i as int));
                lemma_first_key_unique(entries@, key@, i as int, key_position(entries@, key@));
            }
            return Some(i);
        }
    }
    proof {
        if has_key(entries@, key@) {
            let k = key_position(entries@, key@);
            assert(entries@[k].key@ == key@);
        }
    }
    None
}

/// A string value holding the given text.
pub fn json_str(s: &str) -> (v: JsonValue)
    ensures
        v matches JsonValue::String(t) && t@ == s@,
{
    JsonValue::String(string_of(&chars_of(s)))
}

/// An entry `key: value`.
pub fn entry(key: &str, value: JsonValue) -> (e: JsonEntry)
    ensures
        e.key@ == key@,
        e.value == value,
{
    JsonEntry { key: string_of(&chars_of(key)), value }
}

impl JsonValue {
    /// The member `key` (`Value::get` with a string index).
    pub fn get(&self, key: &str) -> (r: Option<&JsonValue>)
        ensures
            match r {
                Some(v) => field(*self, key@) == Some(*v),
                None => field(*self, key@) is None,
            },
    {
        match self {
            JsonValue::Object(entries) => match find_key(entries, key) {
                Some(i) => Some(&entries[i].value),
                None => None,
            },
            _ => None,
        }
    }

    pub fn as_str(&self) -> (r: Option<&str>)
        ensures
            match r {
                Some(s) => text_of(Some(*self)) == Some(s@),
                None => text_of(Some(*self)) is None,
            },
    {
        match self {
            JsonValue::String(s) => Some(s.as_str()),
            _ => None,
        }
    }

    pub fn as_bool(&self) -> (r: Option<bool>)
        ensures
            match *self {
                JsonValue::Bool(b) => r == Some(b),
                _ => r is None,
            },
    {
        match self {
            JsonValue::Bool(b) => Some(*b),
            _ => None,
        }
    }

    pub fn as_u64(&self) -> (r: Option<u64>)
        ensures
            match *self {
                JsonValue::Number(JsonNumber::PosInt(n)) => r == Some(n),
                _ => r is None,
            },
    {
        match self {
            JsonValue::Number(JsonNumber::PosInt(n)) => Some(*n),
            _ => None,
        }
    }

    pub fn as_array(&self) -> (r: Option<&Vec<JsonValue>>)
        ensures
            match *self {
                JsonValue::Array(items) => r == Some(&items),
                _ => r is None,
            },
    {
        match self {
            JsonValue::Array(items) => Some(items),
            _ => None,
        }
    }

    pub fn is_object(&self) -> (b: bool)
        ensures
            b == (*self is Object),
    {
        match self {
            JsonValue::Object(_) => true,
            _ => false,
        }
    }

    pub fn contains_key(&self, key: &str) -> (b: bool)
        ensures
            b == (field(*self, key@) is Some),
    {
        self.get(key).is_some()
    }

    /// Sets member `key` to `value` when the value is an object; any other
    /// value is left as it is.
    pub fn insert(&mut self, key: &str, value: JsonValue)
        ensures
            match *old(self) {
                JsonValue::Object(old_entries) => (*final(self) matches JsonValue::Object(
                    new_entries,
                ) && inserted(old_entries@, new_entries@, key@, value)),
                _ => *final(self) == *old(self),
            },
    {
        match self {
            JsonValue::Object(entries) => {
                let ghost old_e = entries@;
                let ghost v = value;
                match find_key(entries, key) {
                    Some(i) => {
                        let old_entry = entries.remove(i);
                        let JsonEntry { key: k, value: _ } = old_entry;
                        entries.insert(i, JsonEntry { key: k, value });
                        assert(entries@ =~= old_e.update(
                            i as int,
                            JsonEntry { key: old_e[i as int].key, value: v },
                        ));
                    },
                    None => {
                        entries.push(entry(key, value));
                        assert(entries@.take(old_e.len() as int) =~= old_e);
                    },
                }
            },
            _ => {},
        }
    }
}

} // verus!

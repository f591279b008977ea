//! A JSON value as the library reads it. The host converts its parsed JSON
//! into this form; numbers keep their JSON text and object keys are
//! distinct, as in the parsed value.

use vstd::prelude::*;

use crate::text::str_eq;

verus! {

/// A JSON value.
#[derive(Debug)]
pub enum JsonValue {
    /// `null`.
    Null,
    /// `true` or `false`.
    Bool(bool),
    /// A number, by its JSON text.
    Number(String),
    /// A string.
    String(String),
    /// An array.
    Array(Vec<JsonValue>),
    /// An object's entries, in order.
    Object(Vec<(String, JsonValue)>),
}

/// The value of the first entry of `entries` whose key is `key`.
pub open spec fn entry_value(entries: Seq<(String, JsonValue)>, key: Seq<char>) -> Option<JsonValue>
    decreases entries.len(),
{
    if entries.len() == 0 {
        None
    } else {
        match entry_value(entries.drop_last(), key) {
            Some(v) => Some(v),
            None => if entries.last().0@ == key {
                Some(entries.last().1)
            } else {
                None
            },
        }
    }
}

/// `entry_value` is the value at the least position holding `key`.
pub proof fn lemma_entry_value(entries: Seq<(String, JsonValue)>, key: Seq<char>)
    ensures
        match entry_value(entries, key) {
            Some(v) => exists|i: int|
                0 <= i < entries.len() && entries[i].0@ == key && entries[i].1 == v && forall|j: int|
                    0 <= j < i ==> (#[trigger] entries[j]).0@ != key,
            None => forall|j: int| 0 <= j < entries.len() ==> (#[trigger] entries[j]).0@ != key,
        },
    decreases entries.len(),
{
    if entries.len() > 0 {
        lemma_entry_value(entries.drop_last(), key);
        assert forall|j: int| 0 <= j < entries.len() - 1 implies entries.drop_last()[j] == entries[j] by {}
        if let Some(v) = entry_value(entries.drop_last(), key) {
            let i = choose|i: int|
                0 <= i < entries.drop_last().len() && entries.drop_last()[i].0@ == key
                    && entries.drop_last()[i].1 == v && forall|j: int|
                    0 <= j < i ==> (#[trigger] entries.drop_last()[j]).0@ != key;
            assert(entries[i] == entries.drop_last()[i]);
            assert forall|j: int| 0 <= j < i implies (#[trigger] entries[j]).0@ != key by {
                assert(entries[j] == entries.drop_last()[j]);
            }
        }
    }
}

impl JsonValue {
    /// The value under `key` when this is an object holding that key.
    pub open spec fn field(self, key: Seq<char>) -> Option<JsonValue> {
        match self {
            JsonValue::Object(entries) => entry_value(entries@, key),
            _ => None,
        }
    }

    /// The text of this value when it is a string.
    pub open spec fn text(self) -> Option<Seq<char>> {
        match self {
            JsonValue::String(s) => Some(s@),
            _ => None,
        }
    }

    /// The value under `key`, if this is an object holding that key.
    pub fn get(&self, key: &str) -> (r: Option<&JsonValue>)
        ensures
            match self.field(key@) {
                Some(v) => r is Some && *r.unwrap() == v,
                None => r is None,
            },
    {
        match self {
            JsonValue::Object(entries) => {
                proof {
                    lemma_entry_value(entries@, key@);
                }
                let mut i: usize = 0;
                while i < entries.len()
                    invariant
                        i <= entries@.len(),
                        self.field(key@) == entry_value(entries@, key@),
                        forall|j: int| 0 <= j < i ==> (#[trigger] entries@[j]).0@ != key@,
                        match entry_value(entries@, key@) {
                            Some(v) => exists|k: int|
                                0 <= k < entries@.len() && entries@[k].0@ == key@ && entries@[k].1
                                    == v && forall|j: int|
                                    0 <= j < k ==> (#[trigger] entries@[j]).0@ != key@,
                            None => forall|j: int|
                                0 <= j < entries@.len() ==> (#[trigger] entries@[j]).0@ != key@,
                        },
                    decreases entries@.len() - i,
                {
                    if str_eq(entries[i].0.as_str(), key) {
                        proof {
                            if let Some(v) = entry_value(entries@, key@) {
                                let k = choose|k: int|
                                    0 <= k < entries@.len() && entries@[k].0@ == key@ && entries@[k].1
                                        == v && forall|j: int|
                                        0 <= j < k ==> (#[trigger] entries@[j]).0@ != key@;
                                if k < i {
                                    assert(entries@[k].0@ != key@);
                                } else if k > i {
                                    assert(entries@[i as int].0@ != key@);
                                }
                            } else {
                                assert(entries@[i as int].0@ != key@);
                            }
                        }
                        return Some(&entries[i].1);
                    }
                    i = i + 1;
                }
                None
            },
            _ => None,
        }
    }

    /// The text of this value, if it is a string.
    pub fn as_str(&self) -> (r: Option<&str>)
        ensures
            match self.text() {
                Some(t) => r is Some && r.unwrap()@ == t,
                None => r is None,
            },
    {
        match self {
            JsonValue::String(s) => Some(s.as_str()),
            _ => None,
        }
    }
}

} // verus!

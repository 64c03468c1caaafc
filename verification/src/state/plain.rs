//! The state that flows between the nodes of a workflow: a JSON object of
//! named values.

use vstd::prelude::*;
use crate::json::value::{deref_opt, entries_eq, entry_lookup, JsonObject, JsonValue};
use crate::text::seq_lt;

verus! {

/// A workflow state: values stored under string keys, kept in key order.
#[derive(Debug)]
pub struct PlainState {
    data: JsonObject,
}

impl PlainState {
    /// The entries of the state, in ascending key order.
    pub closed spec fn entries_of(self) -> Seq<(String, JsonValue)> {
        self.data.entries_of()
    }

    /// The value stored under `key`.
    pub open spec fn lookup(self, key: Seq<char>) -> Option<JsonValue> {
        entry_lookup(self.entries_of(), key)
    }

    /// An empty state.
    pub fn new() -> (r: Self)
        ensures
            r.entries_of().len() == 0,
            forall|k: Seq<char>| #[trigger] r.lookup(k) is None,
    {
        PlainState { data: JsonObject::new() }
    }

    /// A state holding the entries of `data`.
    pub fn from_object(data: JsonObject) -> (r: Self)
        ensures
            r.entries_of() == data.entries_of(),
    {
        PlainState { data }
    }

    /// Stores `value` under `key`.
    pub fn set(&mut self, key: &str, value: JsonValue)
        ensures
            forall|k: Seq<char>| #[trigger]
                final(self).lookup(k) == (if k == key@ {
                    Some(value)
                } else {
                    old(self).lookup(k)
                }),
    {
        let mut owned = String::new();
        vstd::string::StringExecFns::append(&mut owned, key);
        assert(owned@ =~= key@);
        let ghost written = value;
        let _ = self.data.insert(owned, value);
        assert forall|k: Seq<char>| #[trigger]
            self.lookup(k) == (if k == key@ {
                Some(written)
            } else {
                old(self).lookup(k)
            }) by {
            assert(self.data.lookup(k) == old(self).data.lookup(k) || k == key@);
        }
    }

    /// The value stored under `key`.
    pub fn get(&self, key: &str) -> (r: Option<&JsonValue>)
        ensures
            deref_opt(r) == self.lookup(key@),
    {
        self.data.get(key)
    }

    /// Whether a value is stored under `key`.
    pub fn contains_key(&self, key: &str) -> (r: bool)
        ensures
            r == self.lookup(key@) is Some,
    {
        self.data.contains_key(key)
    }

    /// Removes the value stored under `key` and returns it.
    pub fn remove(&mut self, key: &str) -> (r: Option<JsonValue>)
        ensures
            r == old(self).lookup(key@),
            forall|k: Seq<char>| #[trigger]
                final(self).lookup(k) == (if k == key@ {
                    None
                } else {
                    old(self).lookup(k)
                }),
    {
        let r = self.data.remove(key);
        assert forall|k: Seq<char>| #[trigger]
            self.lookup(k) == (if k == key@ {
                None
            } else {
                old(self).lookup(k)
            }) by {
            assert(self.data.lookup(k) == old(self).data.lookup(k) || k == key@);
        }
        r
    }

    /// The number of keys.
    pub fn len(&self) -> (r: usize)
        ensures
            r == self.entries_of().len(),
    {
        self.data.len()
    }

    /// Whether the state holds no keys.
    pub fn is_empty(&self) -> (r: bool)
        ensures
            r == (self.entries_of().len() == 0),
    {
        self.data.is_empty()
    }

    /// The keys, in ascending order.
    pub fn keys(&self) -> (r: Vec<String>)
        ensures
            r@.len() == self.entries_of().len(),
            forall|i: int| 0 <= i < r@.len() ==> #[trigger] r@[i]@ == self.entries_of()[i].0@,
            forall|i: int, j: int| 0 <= i < j < r@.len() ==> #[trigger] seq_lt(r@[i]@, r@[j]@),
    {
        self.data.keys()
    }

    /// The underlying JSON object.
    pub fn as_map(&self) -> (r: &JsonObject)
        ensures
            r.entries_of() == self.entries_of(),
    {
        &self.data
    }

    /// The state as a JSON object value.
    pub fn to_value(&self) -> (r: JsonValue)
        ensures
            r matches JsonValue::Object(o) && entries_eq(self.entries_of(), o.entries_of()),
    {
        JsonValue::Object(self.data.copy())
    }

    /// Stores every entry of `other` in this state, replacing the values of
    /// keys that both hold.
    pub fn merge(&mut self, other: PlainState)
        ensures
            forall|k: Seq<char>| #[trigger]
                final(self).lookup(k) == (if other.lookup(k) is Some {
                    other.lookup(k)
                } else {
                    old(self).lookup(k)
                }),
    {
        let ghost other_state = other;
        let mut entries = other.data.into_entries();
        let ghost all = entries@;
        while entries.len() > 0
            invariant
                all == other_state.entries_of(),
                entries@.len() <= all.len(),
                entries@ == all.subrange(0, entries@.len() as int),
                forall|k: Seq<char>| #[trigger]
                    self.lookup(k) == (if entry_lookup(all.subrange(entries@.len() as int, all.len() as int), k) is Some {
                        entry_lookup(all.subrange(entries@.len() as int, all.len() as int), k)
                    } else {
                        old(self).lookup(k)
                    }),
            decreases entries@.len(),
        {
            let ghost j = entries@.len() - 1;
            let (key, value) = entries.pop().unwrap();
            proof {
                let tail = all.subrange(j, all.len() as int);
                assert(tail[0] == all[j]);
                assert(tail.drop_first() =~= all.subrange(j + 1, all.len() as int));
                assert(entries@ =~= all.subrange(0, j));
            }
            self.set(key.as_str(), value);
        }
        proof {
            assert(all.subrange(0, all.len() as int) =~= all);
        }
    }
}

impl Clone for PlainState {
    fn clone(&self) -> (r: Self)
        ensures
            entries_eq(self.entries_of(), r.entries_of()),
    {
        PlainState { data: self.data.copy() }
    }
}

impl Default for PlainState {
    /// An empty state.
    fn default() -> (r: Self)
        ensures
            r.entries_of().len() == 0,
            forall|k: Seq<char>| #[trigger] r.lookup(k) is None,
    {
        PlainState::new()
    }
}

} // verus!

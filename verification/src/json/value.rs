//! JSON values and objects.
//!
//! An object keeps its entries with strictly ascending keys, so that it
//! holds each key once and lists its entries in key order, as `serde_json`'s
//! default map does.

use vstd::prelude::*;
use crate::json::number::{lemma_value_same_equivalence, JsonNumber};
use crate::text::{compare_str, lemma_seq_lt_irreflexive, lemma_seq_lt_total, lemma_seq_lt_transitive, seq_lt, KeyOrder};

verus! {

/// A JSON value.
#[derive(Debug)]
pub enum JsonValue {
    Null,
    Bool(bool),
    Number(JsonNumber),
    String(String),
    Array(Vec<JsonValue>),
    Object(JsonObject),
}

/// A JSON object: entries with distinct keys, kept in ascending key order.
#[derive(Debug)]
pub struct JsonObject {
    entries: Vec<(String, JsonValue)>,
}

/// Every key of `entries` is below every key that follows it.
pub open spec fn keys_ascending(entries: Seq<(String, JsonValue)>) -> bool {
    forall|i: int, j: int|
        0 <= i < j < entries.len() ==> #[trigger] seq_lt(entries[i].0@, entries[j].0@)
}

/// The value of the first entry whose key is `key`.
pub open spec fn entry_lookup(entries: Seq<(String, JsonValue)>, key: Seq<char>) -> Option<JsonValue>
    decreases entries.len(),
{
    if entries.len() == 0 {
        None
    } else if entries[0].0@ == key {
        Some(entries[0].1)
    } else {
        entry_lookup(entries.drop_first(), key)
    }
}

/// Where `entry_lookup` finds its entry: the first index whose key is
/// `key`, or -1 when no key is.
pub proof fn lemma_lookup_index(entries: Seq<(String, JsonValue)>, key: Seq<char>) -> (i: int)
    ensures
        entry_lookup(entries, key) is None ==> i == -1 && forall|j: int|
            0 <= j < entries.len() ==> #[trigger] entries[j].0@ != key,
        entry_lookup(entries, key) is Some ==> {
            &&& 0 <= i < entries.len()
            &&& entries[i].0@ == key
            &&& entries[i].1 == entry_lookup(entries, key)->0
            &&& forall|j: int| 0 <= j < i ==> #[trigger] entries[j].0@ != key
        },
    decreases entries.len(),
{
    if entries.len() == 0 {
        -1
    } else if entries[0].0@ == key {
        0
    } else {
        let r = lemma_lookup_index(entries.drop_first(), key);
        if r == -1 {
            assert forall|j: int| 0 <= j < entries.len() implies #[trigger] entries[j].0@ != key by {
                if j > 0 {
                    assert(entries[j] == entries.drop_first()[j - 1]);
                }
            }
            -1
        } else {
            assert forall|j: int| 0 <= j < r + 1 implies #[trigger] entries[j].0@ != key by {
                if j > 0 {
                    assert(entries[j] == entries.drop_first()[j - 1]);
                }
            }
            r + 1
        }
    }
}

/// Looking a key up in two runs of entries one after the other finds it in
/// the first run if it is there, and in the second otherwise.
pub proof fn lemma_lookup_concat(a: Seq<(String, JsonValue)>, b: Seq<(String, JsonValue)>, key: Seq<char>)
    ensures
        entry_lookup(a + b, key) == (if entry_lookup(a, key) is Some {
            entry_lookup(a, key)
        } else {
            entry_lookup(b, key)
        }),
    decreases a.len(),
{
    if a.len() == 0 {
        assert(a + b =~= b);
    } else {
        assert((a + b)[0] == a[0]);
        assert((a + b).drop_first() =~= a.drop_first() + b);
        lemma_lookup_concat(a.drop_first(), b, key);
    }
}

/// A single entry finds its own key only.
pub proof fn lemma_lookup_single(e: (String, JsonValue), key: Seq<char>)
    ensures
        entry_lookup(seq![e], key) == (if e.0@ == key {
            Some(e.1)
        } else {
            None::<JsonValue>
        }),
{
    let s = seq![e];
    assert(s[0] == e);
    if e.0@ != key {
        assert(s.drop_first().len() == 0);
        assert(entry_lookup(s.drop_first(), key) is None);
    }
}

/// Equality of JSON values, as `serde_json`'s `Value` equality: objects are
/// equal when they hold the same keys with equal values.
pub closed spec fn json_eq(a: JsonValue, b: JsonValue) -> bool
    decreases a,
{
    match a {
        JsonValue::Null => b is Null,
        JsonValue::Bool(x) => b matches JsonValue::Bool(y) && x == y,
        JsonValue::Number(x) => b matches JsonValue::Number(y) && x.same_number(y),
        JsonValue::String(x) => b matches JsonValue::String(y) && x@ == y@,
        JsonValue::Array(xs) => b matches JsonValue::Array(ys) && {
            proof {
                assert(decreases_to!(a => a->Array_0));
            }
            items_eq(xs@, ys@)
        },
        JsonValue::Object(xo) => b matches JsonValue::Object(yo) && {
            proof {
                assert(decreases_to!(a => a->Object_0));
                assert(decreases_to!(xo => xo.entries));
            }
            entries_eq(xo.entries@, yo.entries_of())
        },
    }
}

/// Element-wise equality of two runs of JSON values.
pub closed spec fn items_eq(xs: Seq<JsonValue>, ys: Seq<JsonValue>) -> bool
    decreases xs,
{
    xs.len() == ys.len() && (xs.len() == 0 || (items_eq(xs.drop_last(), ys.drop_last()) && json_eq(
        xs.last(),
        ys.last(),
    )))
}

/// Entry-wise equality of two runs of object entries.
pub closed spec fn entries_eq(xs: Seq<(String, JsonValue)>, ys: Seq<(String, JsonValue)>) -> bool
    decreases xs,
{
    xs.len() == ys.len() && (xs.len() == 0 || (entries_eq(xs.drop_last(), ys.drop_last())
        && xs.last().0@ == ys.last().0@ && {
        proof {
            assert(decreases_to!(xs => xs[xs.len() - 1]));
            assert(decreases_to!(xs[xs.len() - 1] => xs[xs.len() - 1].1));
        }
        json_eq(xs.last().1, ys.last().1)
    }))
}

/// The value of an optional reference.
pub open spec fn deref_opt(r: Option<&JsonValue>) -> Option<JsonValue> {
    match r {
        Some(v) => Some(*v),
        None => None,
    }
}

/// The characters of an optional string slice.
pub open spec fn str_opt(r: Option<&str>) -> Option<Seq<char>> {
    match r {
        Some(s) => Some(s@),
        None => None,
    }
}

impl JsonObject {
    #[verifier::type_invariant]
    spec fn ascending(self) -> bool {
        keys_ascending(self.entries@)
    }

    /// The entries, in ascending key order.
    pub closed spec fn entries_of(self) -> Seq<(String, JsonValue)> {
        self.entries@
    }

    /// The value stored under `key`.
    pub open spec fn lookup(self, key: Seq<char>) -> Option<JsonValue> {
        entry_lookup(self.entries_of(), key)
    }

    /// An entry's value is part of the object.
    pub proof fn lemma_entry_decreases(self, i: int)
        requires
            0 <= i < self.entries_of().len(),
        ensures
            decreases_to!(self => self.entries_of()[i].1),
    {
        assert(decreases_to!(self => self.entries));
        assert(decreases_to!(self.entries => self.entries@));
        assert(decreases_to!(self.entries@ => self.entries@[i]));
        assert(decreases_to!(self.entries@[i] => self.entries@[i].1));
    }

    /// An empty object.
    pub fn new() -> (r: Self)
        ensures
            r.entries_of().len() == 0,
            forall|k: Seq<char>| r.lookup(k) is None,
    {
        JsonObject { entries: Vec::new() }
    }

    /// The number of entries.
    pub fn len(&self) -> (r: usize)
        ensures
            r == self.entries_of().len(),
    {
        self.entries.len()
    }

    /// Whether the object has no entries.
    pub fn is_empty(&self) -> (r: bool)
        ensures
            r == (self.entries_of().len() == 0),
    {
        self.entries.len() == 0
    }

    /// The entries, in ascending key order.
    pub fn entries(&self) -> (r: &Vec<(String, JsonValue)>)
        ensures
            r@ == self.entries_of(),
            keys_ascending(r@),
    {
        proof {
            use_type_invariant(self);
        }
        &self.entries
    }

    /// The entries, in ascending key order, taken out of the object.
    pub fn into_entries(self) -> (r: Vec<(String, JsonValue)>)
        ensures
            r@ == self.entries_of(),
            keys_ascending(r@),
    {
        proof {
            use_type_invariant(&self);
        }
        self.entries
    }

    /// The index of `key` among the entries, if it is there.
    fn position(&self, key: &str) -> (r: Option<usize>)
        ensures
            match r {
                Some(i) => {
                    &&& i < self.entries_of().len()
                    &&& self.entries_of()[i as int].0@ == key@
                    &&& self.lookup(key@) == Some(self.entries_of()[i as int].1)
                },
                None => self.lookup(key@) is None,
            },
    {
        let n = self.entries.len();
        let mut i: usize = 0;
        while i < n
            invariant
                n == self.entries@.len(),
                i <= n,
                forall|j: int| 0 <= j < i ==> #[trigger] self.entries@[j].0@ != key@,
            decreases n - i,
        {
            if crate::text::str_eq(self.entries[i].0.as_str(), key) {
                proof {
                    let k = lemma_lookup_index(self.entries@, key@);
                }
                return Some(i);
            }
            i = i + 1;
        }
        proof {
            let k = lemma_lookup_index(self.entries@, key@);
        }
        None
    }

    /// The value stored under `key`, as `serde_json`'s `Map::get`.
    pub fn get(&self, key: &str) -> (r: Option<&JsonValue>)
        ensures
            deref_opt(r) == self.lookup(key@),
    {
        match self.position(key) {
            Some(i) => Some(&self.entries[i].1),
            None => None,
        }
    }

    /// Whether a value is stored under `key`.
    pub fn contains_key(&self, key: &str) -> (r: bool)
        ensures
            r == self.lookup(key@) is Some,
    {
        self.position(key).is_some()
    }

    /// The keys, in ascending order.
    pub fn keys(&self) -> (r: Vec<String>)
        ensures
            r@.len() == self.entries_of().len(),
            forall|i: int| 0 <= i < r@.len() ==> #[trigger] r@[i]@ == self.entries_of()[i].0@,
            forall|i: int, j: int| 0 <= i < j < r@.len() ==> #[trigger] seq_lt(r@[i]@, r@[j]@),
    {
        proof {
            use_type_invariant(self);
        }
        let mut r: Vec<String> = Vec::new();
        let mut i: usize = 0;
        while i < self.entries.len()
            invariant
                i <= self.entries@.len(),
                r@.len() == i,
                forall|j: int| 0 <= j < i ==> #[trigger] r@[j]@ == self.entries@[j].0@,
            decreases self.entries@.len() - i,
        {
            r.push(self.entries[i].0.clone());
            i = i + 1;
        }
        r
    }

    /// Stores `value` under `key`, returning the value stored there before,
    /// as `serde_json`'s `Map::insert`.
    pub fn insert(&mut self, key: String, value: JsonValue) -> (r: Option<JsonValue>)
        ensures
            r == old(self).lookup(key@),
            forall|k: Seq<char>| #[trigger]
                final(self).lookup(k) == (if k == key@ {
                    Some(value)
                } else {
                    old(self).lookup(k)
                }),
    {
        proof {
            use_type_invariant(&*self);
        }
        let mut entries: Vec<(String, JsonValue)> = Vec::new();
        std::mem::swap(&mut entries, &mut self.entries);
        let ghost old_entries = entries@;
        let n = entries.len();
        let mut p: usize = 0;
        let mut found = false;
        while p < n
            invariant
                entries@ == old_entries,
                keys_ascending(old_entries),
                n == old_entries.len(),
                p <= n,
                forall|j: int| 0 <= j < p ==> #[trigger] seq_lt(old_entries[j].0@, key@),
                found ==> p < n && old_entries[p as int].0@ == key@,
            ensures
                forall|j: int| 0 <= j < p ==> #[trigger] seq_lt(old_entries[j].0@, key@),
                found ==> p < n && old_entries[p as int].0@ == key@,
                !found ==> p == n || seq_lt(key@, old_entries[p as int].0@),
            decreases n - p,
        {
            match compare_str(entries[p].0.as_str(), key.as_str()) {
                KeyOrder::Less => {
                    p = p + 1;
                },
                KeyOrder::Equal => {
                    found = true;
                    break;
                },
                KeyOrder::Greater => {
                    break;
                },
            }
        }
        let ghost prefix = old_entries.subrange(0, p as int);
        proof {
            lemma_seq_lt_irreflexive(key@);
            assert forall|j: int| 0 <= j < prefix.len() implies #[trigger] prefix[j].0@ != key@ by {
                assert(seq_lt(prefix[j].0@, key@));
            }
            let pi = lemma_lookup_index(prefix, key@);
        }
        let result;
        if found {
            let (_, previous) = entries.remove(p);
            entries.insert(p, (key, value));
            result = Some(previous);
            proof {
                let suffix = old_entries.subrange(p + 1, n as int);
                assert(old_entries =~= prefix + (seq![old_entries[p as int]] + suffix));
                assert(entries@ =~= prefix + (seq![entries@[p as int]] + suffix));
                lemma_lookup_concat(prefix, seq![old_entries[p as int]] + suffix, key@);
                lemma_lookup_concat(seq![old_entries[p as int]], suffix, key@);
                lemma_lookup_single(old_entries[p as int], key@);
                assert forall|k: Seq<char>| #[trigger]
                    entry_lookup(entries@, k) == (if k == key@ {
                        Some(value)
                    } else {
                        entry_lookup(old_entries, k)
                    }) by {
                    lemma_lookup_concat(prefix, seq![old_entries[p as int]] + suffix, k);
                    lemma_lookup_concat(prefix, seq![entries@[p as int]] + suffix, k);
                    lemma_lookup_concat(seq![old_entries[p as int]], suffix, k);
                    lemma_lookup_concat(seq![entries@[p as int]], suffix, k);
                    lemma_lookup_single(old_entries[p as int], k);
                    lemma_lookup_single(entries@[p as int], k);
                }
                assert(keys_ascending(entries@)) by {
                    assert forall|i: int, j: int| 0 <= i < j < entries@.len() implies #[trigger] seq_lt(
                        entries@[i].0@,
                        entries@[j].0@,
                    ) by {
                        assert(entries@[i].0@ == old_entries[i].0@);
                        assert(entries@[j].0@ == old_entries[j].0@);
                    }
                }
            }
        } else {
            entries.insert(p, (key, value));
            result = None;
            proof {
                let suffix = old_entries.subrange(p as int, n as int);
                let e = entries@[p as int];
                assert(old_entries =~= prefix + suffix);
                assert(entries@ =~= prefix + (seq![e] + suffix));
                assert forall|k: Seq<char>| #[trigger]
                    entry_lookup(entries@, k) == (if k == key@ {
                        Some(value)
                    } else {
                        entry_lookup(old_entries, k)
                    }) by {
                    lemma_lookup_concat(prefix, suffix, k);
                    lemma_lookup_concat(prefix, seq![e] + suffix, k);
                    lemma_lookup_concat(seq![e], suffix, k);
                    lemma_lookup_single(e, k);
                }
                lemma_lookup_concat(prefix, suffix, key@);
                if p < n {
                    let si = lemma_lookup_index(suffix, key@);
                    if entry_lookup(suffix, key@) is Some {
                        assert(suffix[si].0@ == key@);
                        if si > 0 {
                            assert(seq_lt(old_entries[p as int].0@, old_entries[p + si].0@));
                            lemma_seq_lt_transitive(key@, old_entries[p as int].0@, key@);
                        }
                        assert(false);
                    }
                } else {
                    assert(suffix.len() == 0);
                }
                assert(keys_ascending(entries@)) by {
                    assert forall|i: int, j: int| 0 <= i < j < entries@.len() implies #[trigger] seq_lt(
                        entries@[i].0@,
                        entries@[j].0@,
                    ) by {
                        if i < p && j < p {
                            assert(entries@[j] == old_entries[j]);
                            assert(entries@[i] == old_entries[i]);
                        } else if i < p && j == p {
                        } else if i < p && j > p {
                            assert(entries@[j] == old_entries[j - 1]);
                        } else if i == p {
                            assert(entries@[j] == old_entries[j - 1]);
                            if j - 1 > p {
                                lemma_seq_lt_transitive(key@, old_entries[p as int].0@, old_entries[j - 1].0@);
                            }
                        } else {
                            assert(entries@[j] == old_entries[j - 1]);
                            assert(entries@[i] == old_entries[i - 1]);
                        }
                    }
                }
            }
        }
        self.entries = entries;
        result
    }

    /// Removes the value stored under `key` and returns it, as
    /// `serde_json`'s `Map::remove`.
    pub fn remove(&mut self, key: &str) -> (r: Option<JsonValue>)
        ensures
            r == old(self).lookup(key@),
            forall|k: Seq<char>| #[trigger]
                final(self).lookup(k) == (if k == key@ {
                    None
                } else {
                    old(self).lookup(k)
                }),
    {
        proof {
            use_type_invariant(&*self);
        }
        match self.position(key) {
            None => {
                assert forall|k: Seq<char>| #[trigger]
                    self.lookup(k) == (if k == key@ {
                        None
                    } else {
                        old(self).lookup(k)
                    }) by {}
                None
            },
            Some(p) => {
                let mut entries: Vec<(String, JsonValue)> = Vec::new();
                std::mem::swap(&mut entries, &mut self.entries);
                let ghost old_entries = entries@;
                let ghost n = old_entries.len();
                let (_, previous) = entries.remove(p);
                proof {
                    let prefix = old_entries.subrange(0, p as int);
                    let suffix = old_entries.subrange(p + 1, n as int);
                    let pi = lemma_lookup_index(old_entries, key@);
                    assert(pi == p) by {
                        if pi < p {
                            assert(old_entries[pi].0@ == key@);
                            assert(seq_lt(old_entries[pi].0@, old_entries[p as int].0@));
                            lemma_seq_lt_irreflexive(key@);
                        }
                        if pi > p {
                            assert(old_entries[p as int].0@ == key@);
                        }
                    }
                    assert(old_entries =~= prefix + (seq![old_entries[p as int]] + suffix));
                    assert(entries@ =~= prefix + suffix);
                    assert forall|j: int| 0 <= j < prefix.len() implies #[trigger] prefix[j].0@ != key@ by {
                        assert(prefix[j] == old_entries[j]);
                    }
                    assert forall|j: int| 0 <= j < suffix.len() implies #[trigger] suffix[j].0@ != key@ by {
                        assert(suffix[j] == old_entries[p + 1 + j]);
                        assert(seq_lt(old_entries[p as int].0@, old_entries[p + 1 + j].0@));
                        lemma_seq_lt_irreflexive(key@);
                    }
                    let si = lemma_lookup_index(suffix, key@);
                    assert forall|k: Seq<char>| #[trigger]
                        entry_lookup(entries@, k) == (if k == key@ {
                            None
                        } else {
                            entry_lookup(old_entries, k)
                        }) by {
                        lemma_lookup_concat(prefix, suffix, k);
                        lemma_lookup_concat(prefix, seq![old_entries[p as int]] + suffix, k);
                        lemma_lookup_concat(seq![old_entries[p as int]], suffix, k);
                        lemma_lookup_single(old_entries[p as int], k);
                        if k == key@ {
                            let qi = lemma_lookup_index(prefix, k);
                            let ri = lemma_lookup_index(suffix, k);
                        }
                    }
                    assert(keys_ascending(entries@)) by {
                        assert forall|i: int, j: int| 0 <= i < j < entries@.len() implies #[trigger] seq_lt(
                            entries@[i].0@,
                            entries@[j].0@,
                        ) by {
                            let oi = if i < p {
                                i
                            } else {
                                i + 1
                            };
                            let oj = if j < p {
                                j
                            } else {
                                j + 1
                            };
                            assert(entries@[i] == old_entries[oi]);
                            assert(entries@[j] == old_entries[oj]);
                        }
                    }
                }
                self.entries = entries;
                Some(previous)
            },
        }
    }

    /// Entry-wise equality with another object.
    pub fn equals(&self, other: &JsonObject) -> (r: bool)
        ensures
            r == entries_eq(self.entries_of(), other.entries_of()),
        decreases self, 0int,
    {
        let n = self.entries.len();
        if n != other.entries.len() {
            return false;
        }
        let mut i: usize = 0;
        while i < n
            invariant
                n == self.entries@.len(),
                n == other.entries@.len(),
                i <= n,
                entries_eq(self.entries@.take(i as int), other.entries@.take(i as int)),
            decreases n - i,
        {
            proof {
                self.lemma_entry_decreases(i as int);
            }
            let same_key = crate::text::str_eq(self.entries[i].0.as_str(), other.entries[i].0.as_str());
            if !same_key {
                proof {
                    lemma_entries_eq_prefix(self.entries@, other.entries@, i as int);
                }
                return false;
            }
            let same_value = self.entries[i].1.equals(&other.entries[i].1);
            if !same_value {
                proof {
                    lemma_entries_eq_prefix(self.entries@, other.entries@, i as int);
                }
                return false;
            }
            proof {
                let xs = self.entries@.take(i + 1);
                let ys = other.entries@.take(i + 1);
                assert(xs.drop_last() =~= self.entries@.take(i as int));
                assert(ys.drop_last() =~= other.entries@.take(i as int));
            }
            i = i + 1;
        }
        assert(self.entries@.take(n as int) =~= self.entries@);
        assert(other.entries@.take(n as int) =~= other.entries@);
        true
    }
}

/// A field of an object value is part of that value.
pub proof fn lemma_field_decreases(v: JsonValue, key: Seq<char>)
    requires
        v.field(key) is Some,
    ensures
        decreases_to!(v => v.field(key)->0),
{
    let o = v->Object_0;
    let k = lemma_lookup_index(o.entries_of(), key);
    o.lemma_entry_decreases(k);
    assert(decreases_to!(v => v->Object_0));
}

/// The object held in a field of an object value is part of that value.
pub proof fn lemma_field_object_decreases(v: JsonValue, key: Seq<char>)
    requires
        v.field(key) matches Some(JsonValue::Object(_)),
    ensures
        decreases_to!(v => v.field(key)->0->Object_0),
{
    lemma_field_decreases(v, key);
    let f = v.field(key)->0;
    assert(decreases_to!(f => f->Object_0));
}

/// Equal runs of entries have equal prefixes, entry by entry.
proof fn lemma_entries_eq_prefix(xs: Seq<(String, JsonValue)>, ys: Seq<(String, JsonValue)>, i: int)
    requires
        0 <= i < xs.len(),
        xs.len() == ys.len(),
    ensures
        entries_eq(xs, ys) ==> xs[i].0@ == ys[i].0@ && json_eq(xs[i].1, ys[i].1),
    decreases xs.len(),
{
    if entries_eq(xs, ys) && i < xs.len() - 1 {
        lemma_entries_eq_prefix(xs.drop_last(), ys.drop_last(), i);
    }
}

/// Equal runs of values have equal elements.
proof fn lemma_items_eq_prefix(xs: Seq<JsonValue>, ys: Seq<JsonValue>, i: int)
    requires
        0 <= i < xs.len(),
        xs.len() == ys.len(),
    ensures
        items_eq(xs, ys) ==> json_eq(xs[i], ys[i]),
    decreases xs.len(),
{
    if items_eq(xs, ys) && i < xs.len() - 1 {
        lemma_items_eq_prefix(xs.drop_last(), ys.drop_last(), i);
    }
}

/// What equality says of each kind of JSON value: equal values are of the
/// same kind, with the same boolean, equal numbers (as JSON numbers), the
/// same string, and as many items or entries.
pub proof fn lemma_json_eq_cases(a: JsonValue, b: JsonValue)
    requires
        json_eq(a, b),
    ensures
        a is Null <==> b is Null,
        a matches JsonValue::Bool(x) ==> b matches JsonValue::Bool(y) && x == y,
        a matches JsonValue::Number(x) ==> b matches JsonValue::Number(y) && x.same_number(y),
        a matches JsonValue::String(x) ==> b matches JsonValue::String(y) && x@ == y@,
        a matches JsonValue::Array(xs) ==> b matches JsonValue::Array(ys) && xs@.len() == ys@.len(),
        a matches JsonValue::Object(xo) ==> b matches JsonValue::Object(yo) && xo.entries_of().len()
            == yo.entries_of().len(),
{
}

/// Every JSON value equals itself.
pub proof fn lemma_json_eq_reflexive(v: JsonValue)
    ensures
        json_eq(v, v),
    decreases v,
{
    match v {
        JsonValue::Number(n) => {
            assert(n.same_number(n));
        },
        JsonValue::Array(xs) => {
            assert(decreases_to!(v => v->Array_0));
            lemma_items_eq_reflexive(xs@);
        },
        JsonValue::Object(o) => {
            assert(decreases_to!(v => v->Object_0));
            assert(decreases_to!(o => o.entries));
            lemma_entries_eq_reflexive(o.entries@);
        },
        _ => {},
    }
}

proof fn lemma_items_eq_reflexive(xs: Seq<JsonValue>)
    ensures
        items_eq(xs, xs),
    decreases xs,
{
    if xs.len() > 0 {
        lemma_items_eq_reflexive(xs.drop_last());
        lemma_json_eq_reflexive(xs.last());
    }
}

proof fn lemma_entries_eq_reflexive(xs: Seq<(String, JsonValue)>)
    ensures
        entries_eq(xs, xs),
    decreases xs,
{
    if xs.len() > 0 {
        lemma_entries_eq_reflexive(xs.drop_last());
        assert(decreases_to!(xs => xs[xs.len() - 1]));
        assert(decreases_to!(xs[xs.len() - 1] => xs[xs.len() - 1].1));
        lemma_json_eq_reflexive(xs.last().1);
    }
}

/// Equality of JSON values is symmetric.
pub proof fn lemma_json_eq_symmetric(a: JsonValue, b: JsonValue)
    requires
        json_eq(a, b),
    ensures
        json_eq(b, a),
    decreases a,
{
    match a {
        JsonValue::Array(xs) => {
            assert(decreases_to!(a => a->Array_0));
            lemma_items_eq_symmetric(xs@, b->Array_0@);
        },
        JsonValue::Object(o) => {
            assert(decreases_to!(a => a->Object_0));
            assert(decreases_to!(o => o.entries));
            lemma_entries_eq_symmetric(o.entries@, b->Object_0.entries@);
        },
        _ => {},
    }
}

proof fn lemma_items_eq_symmetric(xs: Seq<JsonValue>, ys: Seq<JsonValue>)
    requires
        items_eq(xs, ys),
    ensures
        items_eq(ys, xs),
    decreases xs,
{
    if xs.len() > 0 {
        lemma_items_eq_symmetric(xs.drop_last(), ys.drop_last());
        lemma_json_eq_symmetric(xs.last(), ys.last());
    }
}

proof fn lemma_entries_eq_symmetric(xs: Seq<(String, JsonValue)>, ys: Seq<(String, JsonValue)>)
    requires
        entries_eq(xs, ys),
    ensures
        entries_eq(ys, xs),
    decreases xs,
{
    if xs.len() > 0 {
        lemma_entries_eq_symmetric(xs.drop_last(), ys.drop_last());
        assert(decreases_to!(xs => xs[xs.len() - 1]));
        assert(decreases_to!(xs[xs.len() - 1] => xs[xs.len() - 1].1));
        lemma_json_eq_symmetric(xs.last().1, ys.last().1);
    }
}

/// Equality of JSON values is transitive.
pub proof fn lemma_json_eq_transitive(a: JsonValue, b: JsonValue, c: JsonValue)
    requires
        json_eq(a, b),
        json_eq(b, c),
    ensures
        json_eq(a, c),
    decreases a,
{
    match a {
        JsonValue::Number(x) => {
            lemma_value_same_equivalence(x, b->Number_0, c->Number_0);
        },
        JsonValue::Array(xs) => {
            assert(decreases_to!(a => a->Array_0));
            lemma_items_eq_transitive(xs@, b->Array_0@, c->Array_0@);
        },
        JsonValue::Object(o) => {
            assert(decreases_to!(a => a->Object_0));
            assert(decreases_to!(o => o.entries));
            lemma_entries_eq_transitive(o.entries@, b->Object_0.entries@, c->Object_0.entries@);
        },
        _ => {},
    }
}

proof fn lemma_items_eq_transitive(xs: Seq<JsonValue>, ys: Seq<JsonValue>, zs: Seq<JsonValue>)
    requires
        items_eq(xs, ys),
        items_eq(ys, zs),
    ensures
        items_eq(xs, zs),
    decreases xs,
{
    if xs.len() > 0 {
        lemma_items_eq_transitive(xs.drop_last(), ys.drop_last(), zs.drop_last());
        lemma_json_eq_transitive(xs.last(), ys.last(), zs.last());
    }
}

proof fn lemma_entries_eq_transitive(
    xs: Seq<(String, JsonValue)>,
    ys: Seq<(String, JsonValue)>,
    zs: Seq<(String, JsonValue)>,
)
    requires
        entries_eq(xs, ys),
        entries_eq(ys, zs),
    ensures
        entries_eq(xs, zs),
    decreases xs,
{
    if xs.len() > 0 {
        lemma_entries_eq_transitive(xs.drop_last(), ys.drop_last(), zs.drop_last());
        assert(decreases_to!(xs => xs[xs.len() - 1]));
        assert(decreases_to!(xs[xs.len() - 1] => xs[xs.len() - 1].1));
        lemma_json_eq_transitive(xs.last().1, ys.last().1, zs.last().1);
    }
}

impl JsonObject {
    /// A copy of the object, entry by entry.
    pub fn copy(&self) -> (r: JsonObject)
        ensures
            entries_eq(self.entries_of(), r.entries_of()),
        decreases self, 0int,
    {
        proof {
            use_type_invariant(self);
        }
        let mut entries: Vec<(String, JsonValue)> = Vec::new();
        let mut i: usize = 0;
        while i < self.entries.len()
            invariant
                keys_ascending(self.entries@),
                i <= self.entries@.len(),
                entries@.len() == i,
                forall|j: int| 0 <= j < i ==> #[trigger] entries@[j].0@ == self.entries@[j].0@,
                entries_eq(self.entries@.take(i as int), entries@),
            decreases self.entries@.len() - i,
        {
            proof {
                self.lemma_entry_decreases(i as int);
            }
            let key = self.entries[i].0.clone();
            let value = self.entries[i].1.copy();
            let ghost before = entries@;
            entries.push((key, value));
            proof {
                assert(self.entries@.take(i + 1).drop_last() =~= self.entries@.take(i as int));
                assert(entries@.drop_last() =~= before);
                reveal_with_fuel(entries_eq, 2);
            }
            i = i + 1;
        }
        assert(self.entries@.take(i as int) =~= self.entries@);
        assert(keys_ascending(entries@)) by {
            assert forall|a: int, b: int| 0 <= a < b < entries@.len() implies #[trigger] seq_lt(
                entries@[a].0@,
                entries@[b].0@,
            ) by {
                assert(seq_lt(self.entries@[a].0@, self.entries@[b].0@));
            }
        }
        JsonObject { entries }
    }
}

impl Clone for JsonObject {
    fn clone(&self) -> (r: Self)
        ensures
            entries_eq(self.entries_of(), r.entries_of()),
    {
        self.copy()
    }
}

impl Clone for JsonValue {
    fn clone(&self) -> (r: Self)
        ensures
            json_eq(*self, r),
    {
        self.copy()
    }
}

impl JsonValue {
    /// The value under `key`, when this is an object.
    pub open spec fn field(self, key: Seq<char>) -> Option<JsonValue> {
        match self {
            JsonValue::Object(o) => o.lookup(key),
            _ => None,
        }
    }

    /// The characters of this value, when it is a string.
    pub open spec fn str_of(self) -> Option<Seq<char>> {
        match self {
            JsonValue::String(s) => Some(s@),
            _ => None,
        }
    }

    /// This value as a `u64`, when it is a non-negative integer.
    pub open spec fn u64_of(self) -> Option<u64> {
        match self {
            JsonValue::Number(n) => n.as_u64_of(),
            _ => None,
        }
    }

    /// This value as an `i64`, when it is an integer in range.
    pub open spec fn i64_of(self) -> Option<i64> {
        match self {
            JsonValue::Number(n) => n.as_i64_of(),
            _ => None,
        }
    }

    /// The items of this value, when it is an array.
    pub open spec fn items_of(self) -> Option<Seq<JsonValue>> {
        match self {
            JsonValue::Array(items) => Some(items@),
            _ => None,
        }
    }

    /// The value under `key`, when this is an object, as `serde_json`'s
    /// `Value::get` with a string index.
    pub fn get(&self, key: &str) -> (r: Option<&JsonValue>)
        ensures
            deref_opt(r) == self.field(key@),
    {
        match self {
            JsonValue::Object(o) => o.get(key),
            _ => None,
        }
    }

    /// This value as a string slice, when it is a string.
    pub fn as_str(&self) -> (r: Option<&str>)
        ensures
            str_opt(r) == self.str_of(),
    {
        match self {
            JsonValue::String(s) => Some(s.as_str()),
            _ => None,
        }
    }

    /// This value as a `u64`, when it is a non-negative integer.
    pub fn as_u64(&self) -> (r: Option<u64>)
        ensures
            r == self.u64_of(),
    {
        match self {
            JsonValue::Number(n) => n.as_u64(),
            _ => None,
        }
    }

    /// This value as an `i64`, when it is an integer in range.
    pub fn as_i64(&self) -> (r: Option<i64>)
        ensures
            r == self.i64_of(),
    {
        match self {
            JsonValue::Number(n) => n.as_i64(),
            _ => None,
        }
    }

    /// This value as a number, when it is one.
    pub fn as_number(&self) -> (r: Option<&JsonNumber>)
        ensures
            match r {
                Some(n) => *self == JsonValue::Number(*n),
                None => !(*self is Number),
            },
    {
        match self {
            JsonValue::Number(n) => Some(n),
            _ => None,
        }
    }

    /// The items of this value, when it is an array.
    pub fn as_array(&self) -> (r: Option<&Vec<JsonValue>>)
        ensures
            match r {
                Some(items) => self.items_of() == Some(items@),
                None => self.items_of() is None,
            },
    {
        match self {
            JsonValue::Array(items) => Some(items),
            _ => None,
        }
    }

    /// This value as an object, when it is one.
    pub fn as_object(&self) -> (r: Option<&JsonObject>)
        ensures
            match r {
                Some(o) => *self == JsonValue::Object(*o),
                None => !(*self is Object),
            },
    {
        match self {
            JsonValue::Object(o) => Some(o),
            _ => None,
        }
    }

    /// Whether this value is an object.
    pub fn is_object(&self) -> (r: bool)
        ensures
            r == (*self is Object),
    {
        matches!(self, JsonValue::Object(_))
    }

    /// Whether this value is a boolean.
    pub fn is_boolean(&self) -> (r: bool)
        ensures
            r == (*self is Bool),
    {
        matches!(self, JsonValue::Bool(_))
    }

    /// Whether this value is null.
    pub fn is_null(&self) -> (r: bool)
        ensures
            r == (*self is Null),
    {
        matches!(self, JsonValue::Null)
    }

    /// A copy of the value, element by element.
    pub fn copy(&self) -> (r: JsonValue)
        ensures
            json_eq(*self, r),
        decreases self, 1int,
    {
        match self {
            JsonValue::Null => JsonValue::Null,
            JsonValue::Bool(b) => JsonValue::Bool(*b),
            JsonValue::Number(n) => {
                let c = n.clone();
                let _ = n.equals(&c);
                JsonValue::Number(c)
            },
            JsonValue::String(s) => JsonValue::String(s.clone()),
            JsonValue::Array(xs) => {
                let mut ys: Vec<JsonValue> = Vec::new();
                let mut i: usize = 0;
                while i < xs.len()
                    invariant
                        *self == JsonValue::Array(*xs),
                        i <= xs@.len(),
                        ys@.len() == i,
                        items_eq(xs@.take(i as int), ys@),
                    decreases xs@.len() - i,
                {
                    proof {
                        assert(decreases_to!(*self => self->Array_0));
                        assert(decreases_to!(*xs => xs@));
                        assert(decreases_to!(xs@ => xs@[i as int]));
                    }
                    let c = xs[i].copy();
                    let ghost before = ys@;
                    ys.push(c);
                    proof {
                        assert(xs@.take(i + 1).drop_last() =~= xs@.take(i as int));
                        assert(ys@.drop_last() =~= before);
                        reveal_with_fuel(items_eq, 2);
                    }
                    i = i + 1;
                }
                assert(xs@.take(i as int) =~= xs@);
                JsonValue::Array(ys)
            },
            JsonValue::Object(o) => {
                proof {
                    assert(decreases_to!(*self => self->Object_0));
                }
                JsonValue::Object(o.copy())
            },
        }
    }

    /// Equality of JSON values, as `serde_json`'s `Value` equality.
    pub fn equals(&self, other: &JsonValue) -> (r: bool)
        ensures
            r == json_eq(*self, *other),
        decreases self, 1int,
    {
        match (self, other) {
            (JsonValue::Null, JsonValue::Null) => true,
            (JsonValue::Bool(x), JsonValue::Bool(y)) => *x == *y,
            (JsonValue::Number(x), JsonValue::Number(y)) => x.equals(y),
            (JsonValue::String(x), JsonValue::String(y)) => crate::text::str_eq(x.as_str(), y.as_str()),
            (JsonValue::Array(xs), JsonValue::Array(ys)) => {
                let n = xs.len();
                if n != ys.len() {
                    return false;
                }
                let mut i: usize = 0;
                while i < n
                    invariant
                        *self == JsonValue::Array(*xs),
                        *other == JsonValue::Array(*ys),
                        n == xs@.len(),
                        n == ys@.len(),
                        i <= n,
                        items_eq(xs@.take(i as int), ys@.take(i as int)),
                    decreases n - i,
                {
                    proof {
                        assert(decreases_to!(*self => self->Array_0));
                        assert(decreases_to!(*xs => xs@));
                        assert(decreases_to!(xs@ => xs@[i as int]));
                    }
                    if !xs[i].equals(&ys[i]) {
                        proof {
                            lemma_items_eq_prefix(xs@, ys@, i as int);
                        }
                        return false;
                    }
                    proof {
                        assert(xs@.take(i + 1).drop_last() =~= xs@.take(i as int));
                        assert(ys@.take(i + 1).drop_last() =~= ys@.take(i as int));
                    }
                    i = i + 1;
                }
                assert(xs@.take(n as int) =~= xs@);
                assert(ys@.take(n as int) =~= ys@);
                true
            },
            (JsonValue::Object(xo), JsonValue::Object(yo)) => {
                proof {
                    assert(decreases_to!(*self => self->Object_0));
                }
                xo.equals(yo)
            },
            _ => false,
        }
    }
}

impl PartialEq for JsonValue {
    fn eq(&self, other: &JsonValue) -> (r: bool) {
        self.equals(other)
    }
}

impl vstd::std_specs::cmp::PartialEqSpecImpl for JsonValue {
    open spec fn obeys_eq_spec() -> bool {
        true
    }

    open spec fn eq_spec(&self, other: &JsonValue) -> bool {
        json_eq(*self, *other)
    }
}

} // verus!

//! `SharedState`: a workflow state behind a reference-counted mutex, so
//! that cloning a handle shares the state instead of copying it.
//!
//! Each operation locks the mutex, applies the corresponding `PlainState`
//! operation to the state it holds, and unlocks. What the mutex holds at a
//! given moment depends on every handle to it, so the contracts here say
//! what holds whatever the state was; the state operations themselves are
//! specified on `PlainState`.

use vstd::prelude::*;
use std::sync::Arc;
use std::sync::Mutex;
use std::sync::MutexGuard;
use crate::error::ErenFlowError;
use crate::json::value::{entries_eq, json_eq, JsonObject, JsonValue};
use crate::state::plain::PlainState;
use crate::text::{decimal, push_decimal, seq_lt};
use vstd::string::StringExecFns;

verus! {

/// The standard library's mutex.
#[verifier::external_type_specification]
#[verifier::external_body]
#[verifier::reject_recursive_types(T)]
pub struct ExMutex<T: ?Sized>(Mutex<T>);

/// The guard that a locked mutex hands out.
#[verifier::external_type_specification]
#[verifier::external_body]
#[verifier::reject_recursive_types(T)]
pub struct ExMutexGuard<'a, T: ?Sized + 'a>(MutexGuard<'a, T>);

/// `Mutex::new`: a mutex holding `state`. What a mutex holds is not
/// modelled, so nothing is stated of the result.
#[verifier::external_body]
fn new_mutex(state: PlainState) -> Mutex<PlainState> {
    Mutex::new(state)
}

/// `Mutex::try_lock`, with a failure reported as `None`: the lock is
/// taken when it is free, and `None` comes back when the mutex is poisoned
/// or already locked, by another thread or by the calling one. It never
/// blocks and never panics. Whether it succeeds depends on the other
/// holders of the mutex, so nothing is stated of the result.
#[verifier::external_body]
fn lock_state(m: &Mutex<PlainState>) -> Option<MutexGuard<'_, PlainState>> {
    m.try_lock().ok()
}

/// `Mutex::is_poisoned`: whether a holder of the lock panicked. It depends
/// on the other holders, so nothing is stated of the result.
#[verifier::external_body]
fn mutex_poisoned(m: &Mutex<PlainState>) -> bool {
    m.is_poisoned()
}

/// `DerefMut` of a mutex guard: the state it holds, for writing. That state
/// is whatever the mutex held, so nothing is stated of it.
#[verifier::external_body]
fn guarded_mut<'a, 'b>(g: &'b mut MutexGuard<'a, PlainState>) -> &'b mut PlainState {
    &mut **g
}

/// `Deref` of a mutex guard: the state it holds, for reading. That state
/// is whatever the mutex held, so nothing is stated of it.
#[verifier::external_body]
fn guarded<'a, 'b>(g: &'b MutexGuard<'a, PlainState>) -> &'b PlainState {
    &**g
}

/// `Arc::ptr_eq`: whether the two pointers share one allocation; when they
/// do, they point to the same value.
#[verifier::external_body]
fn arc_ptr_eq(a: &Arc<Mutex<PlainState>>, b: &Arc<Mutex<PlainState>>) -> (r: bool)
    ensures
        r ==> *a == *b,
{
    Arc::ptr_eq(a, b)
}

/// `Arc::clone`: another pointer to the same allocation, so the same value.
#[verifier::external_body]
pub(crate) fn arc_clone<T>(a: &Arc<T>) -> (r: Arc<T>)
    ensures
        r == *a,
{
    Arc::clone(a)
}

/// `Arc::strong_count`: the number of `Arc` pointers to the allocation,
/// `a` among them, so at least one. The exact number depends on the other
/// pointers and is not stated.
#[verifier::external_body]
pub(crate) fn arc_strong_count<T>(a: &Arc<T>) -> (r: usize)
    ensures
        r >= 1,
{
    Arc::strong_count(a)
}

/// A workflow state that handles share: cloning a handle clones the
/// pointer, not the state.
pub struct SharedState {
    inner: Arc<Mutex<PlainState>>,
}

/// The state type that workflow nodes pass on.
pub type State = SharedState;

/// The error given when a state is asked to merge a handle to itself.
pub open spec fn self_merge_failure(e: ErenFlowError) -> bool {
    e matches ErenFlowError::StateError(m) && m@ == "Cannot merge a state into itself"@
}

/// The error given when the state cannot be locked.
pub open spec fn lock_failure(e: ErenFlowError) -> bool {
    e matches ErenFlowError::StateError(m) && m@ == "Failed to lock state"@
}

fn lock_error() -> (e: ErenFlowError)
    ensures
        lock_failure(e),
{
    let mut m = String::new();
    vstd::string::StringExecFns::append(&mut m, "Failed to lock state");
    assert(m@ =~= "Failed to lock state"@);
    ErenFlowError::StateError(m)
}

impl SharedState {
    /// A shared state holding `state`.
    pub fn new(state: PlainState) -> Self {
        SharedState { inner: Arc::new(new_mutex(state)) }
    }

    /// A shared state holding an empty state.
    pub fn empty() -> Self {
        Self::new(PlainState::new())
    }

    /// Locks the state, or gives `None` when the mutex is poisoned or the
    /// state is locked at the moment (through any handle, by any thread);
    /// it never blocks.
    pub fn try_lock(&self) -> Option<MutexGuard<'_, PlainState>> {
        lock_state(&self.inner)
    }

    /// Whether the state's mutex is poisoned: a holder of its lock
    /// panicked.
    pub fn is_poisoned(&self) -> bool {
        mutex_poisoned(&self.inner)
    }

    /// Stores `value` under `key` in the state (nothing happens when the
    /// state cannot be locked).
    pub fn set(&self, key: &str, value: JsonValue) {
        if let Some(mut guard) = lock_state(&self.inner) {
            guarded_mut(&mut guard).set(key, value);
        }
    }

    /// A copy of the value stored under `key` (`None` when the state
    /// cannot be locked), as `get_locked` gives it for the state the lock found.
    pub fn get(&self, key: &str) -> Option<JsonValue> {
        match lock_state(&self.inner) {
            Some(guard) => Self::get_locked(Some(guarded(&guard)), key),
            None => Self::get_locked(None, key),
        }
    }

    /// What `get` returns once the lock was tried: a copy of the value the
    /// locked state holds under `key`, or `None` when the lock failed.
    pub fn get_locked(locked: Option<&PlainState>, key: &str) -> (r: Option<JsonValue>)
        ensures
            match locked {
                Some(s) => match s.lookup(key@) {
                    Some(v) => r matches Some(c) && json_eq(v, c),
                    None => r is None,
                },
                None => r is None,
            },
    {
        match locked {
            Some(s) => match s.get(key) {
                Some(v) => Some(v.copy()),
                None => None,
            },
            None => None,
        }
    }

    /// Whether a value is stored under `key` (`false` when the state
    /// cannot be locked), as `contains_key_locked` gives it for the state the lock
    /// found.
    pub fn contains_key(&self, key: &str) -> bool {
        match lock_state(&self.inner) {
            Some(guard) => Self::contains_key_locked(Some(guarded(&guard)), key),
            None => Self::contains_key_locked(None, key),
        }
    }

    /// What `contains_key` returns once the lock was tried.
    pub fn contains_key_locked(locked: Option<&PlainState>, key: &str) -> (r: bool)
        ensures
            r == (locked matches Some(s) && s.lookup(key@) is Some),
    {
        match locked {
            Some(s) => s.contains_key(key),
            None => false,
        }
    }

    /// Removes the value stored under `key` and returns it (`None` when the
    /// state cannot be locked).
    pub fn remove(&self, key: &str) -> Option<JsonValue> {
        match lock_state(&self.inner) {
            Some(mut guard) => guarded_mut(&mut guard).remove(key),
            None => None,
        }
    }

    /// The number of keys (0 when the state cannot be locked), as `len_locked`
    /// gives it for the state the lock found.
    pub fn len(&self) -> usize {
        match lock_state(&self.inner) {
            Some(guard) => Self::len_locked(Some(guarded(&guard))),
            None => Self::len_locked(None),
        }
    }

    /// What `len` returns once the lock was tried.
    pub fn len_locked(locked: Option<&PlainState>) -> (r: usize)
        ensures
            r == (match locked {
                Some(s) => s.entries_of().len(),
                None => 0,
            }),
    {
        match locked {
            Some(s) => s.keys().len(),
            None => 0,
        }
    }

    /// Whether the state holds no keys (`true` when the state cannot be locked),
    /// as `is_empty_locked` gives it for the state the lock found.
    pub fn is_empty(&self) -> bool {
        match lock_state(&self.inner) {
            Some(guard) => Self::is_empty_locked(Some(guarded(&guard))),
            None => Self::is_empty_locked(None),
        }
    }

    /// What `is_empty` returns once the lock was tried: whether the locked
    /// state has no entries, and `true` when the lock failed (as a length of
    /// 0 from `len`).
    pub fn is_empty_locked(locked: Option<&PlainState>) -> (r: bool)
        ensures
            r == (match locked {
                Some(s) => s.entries_of().len() == 0,
                None => true,
            }),
    {
        Self::len_locked(locked) == 0
    }

    /// A copy of the underlying JSON object (empty when the state
    /// cannot be locked), as `as_map_locked` gives it for the state the lock found.
    pub fn as_map(&self) -> JsonObject {
        match lock_state(&self.inner) {
            Some(guard) => Self::as_map_locked(Some(guarded(&guard))),
            None => Self::as_map_locked(None),
        }
    }

    /// What `as_map` returns once the lock was tried.
    pub fn as_map_locked(locked: Option<&PlainState>) -> (r: JsonObject)
        ensures
            match locked {
                Some(s) => entries_eq(s.entries_of(), r.entries_of()),
                None => r.entries_of().len() == 0,
            },
    {
        match locked {
            Some(s) => s.as_map().copy(),
            None => JsonObject::new(),
        }
    }

    /// The state as a JSON object value (an empty object when the state
    /// cannot be locked), as `to_value_locked` gives it for the state the lock
    /// found.
    pub fn to_value(&self) -> (r: JsonValue)
        ensures
            r is Object,
    {
        match lock_state(&self.inner) {
            Some(guard) => Self::to_value_locked(Some(guarded(&guard))),
            None => Self::to_value_locked(None),
        }
    }

    /// What `to_value` returns once the lock was tried.
    pub fn to_value_locked(locked: Option<&PlainState>) -> (r: JsonValue)
        ensures
            r matches JsonValue::Object(o) && match locked {
                Some(s) => entries_eq(s.entries_of(), o.entries_of()),
                None => o.entries_of().len() == 0,
            },
    {
        match locked {
            Some(s) => s.to_value(),
            None => JsonValue::Object(JsonObject::new()),
        }
    }

    /// Stores every entry of `other`'s state in this one.
    ///
    /// `other` must be a handle to another state: a handle to this one
    /// (such as a clone of `self`) is refused with the error
    /// `self_merge_failure` describes, before any lock is taken. When
    /// either state cannot be locked (poisoned, or locked at the moment),
    /// the lock error comes back.
    pub fn merge(&self, other: SharedState) -> (r: Result<(), ErenFlowError>)
        ensures
            r matches Err(e) ==> lock_failure(e) || self_merge_failure(e),
    {
        if arc_ptr_eq(&self.inner, &other.inner) {
            let mut m = String::new();
            vstd::string::StringExecFns::append(&mut m, "Cannot merge a state into itself");
            assert(m@ =~= "Cannot merge a state into itself"@);
            return Err(ErenFlowError::StateError(m));
        }
        let mut this = match lock_state(&self.inner) {
            Some(g) => g,
            None => {
                return Err(lock_error());
            },
        };
        let other_inner = match lock_state(&other.inner) {
            Some(g) => g,
            None => {
                return Err(lock_error());
            },
        };
        let copy = guarded(&other_inner).clone();
        guarded_mut(&mut this).merge(copy);
        Ok(())
    }

    /// Runs `f` with mutable access to the state: on success `f` has run on
    /// the locked state. While `f` runs the state is locked, so an
    /// operation on another handle to it from inside `f` finds it locked
    /// and acts as on a state that cannot be locked.
    pub fn with_mut<F>(&self, f: F) -> (r: Result<(), ErenFlowError>) where F: FnOnce(&mut PlainState)
        requires
            forall|s: &mut PlainState| #[trigger] f.requires((s,)),
        ensures
            r matches Err(e) ==> lock_failure(e),
            r is Ok ==> exists|s: &mut PlainState| #[trigger] f.ensures((s,), ()),
    {
        let mut state = match lock_state(&self.inner) {
            Some(g) => g,
            None => {
                return Err(lock_error());
            },
        };
        let s = guarded_mut(&mut state);
        f(s);
        Ok(())
    }

    /// Runs `f` with read access to the state and returns its result: on
    /// success, what `f` returned for the locked state. While `f` runs the
    /// state is locked, so an operation on another handle to it from
    /// inside `f` finds it locked and acts as on a state that cannot be
    /// locked.
    pub fn with<F, R>(&self, f: F) -> (r: Result<R, ErenFlowError>) where F: FnOnce(&PlainState) -> R
        requires
            forall|s: &PlainState| #[trigger] f.requires((s,)),
        ensures
            r matches Err(e) ==> lock_failure(e),
            r is Ok ==> exists|s: &PlainState| #[trigger] f.ensures((s,), r->Ok_0),
    {
        let state = match lock_state(&self.inner) {
            Some(g) => g,
            None => {
                return Err(lock_error());
            },
        };
        let locked = guarded(&state);
        let x = f(locked);
        let r: Result<R, ErenFlowError> = Ok(x);
        assert(f.ensures((locked,), r->Ok_0));
        r
    }

    /// A copy of the state, as `into_state_locked` gives it for the state
    /// the lock found.
    pub fn into_state(self) -> (r: Result<PlainState, ErenFlowError>)
        ensures
            r matches Err(e) ==> lock_failure(e),
    {
        match lock_state(&self.inner) {
            Some(guard) => Self::into_state_locked(Some(guarded(&guard))),
            None => Self::into_state_locked(None),
        }
    }

    /// What `into_state` returns once the lock was tried: a copy of the
    /// locked state, or the lock error.
    pub fn into_state_locked(locked: Option<&PlainState>) -> (r: Result<PlainState, ErenFlowError>)
        ensures
            match locked {
                Some(s) => r matches Ok(c) && entries_eq(s.entries_of(), c.entries_of()),
                None => r matches Err(e) && lock_failure(e),
            },
    {
        match locked {
            Some(s) => Ok(s.clone()),
            None => Err(lock_error()),
        }
    }

    /// The number of handles sharing this state.
    pub fn strong_count(&self) -> (r: usize)
        ensures
            r >= 1,
    {
        arc_strong_count(&self.inner)
    }

    /// A copy of the string stored under `key`, or `None` when there is none
    /// or the value is not a string, as `get_str_locked` gives it for the
    /// state the lock found.
    pub fn get_str(&self, key: &str) -> Option<String> {
        match lock_state(&self.inner) {
            Some(guard) => Self::get_str_locked(Some(guarded(&guard)), key),
            None => Self::get_str_locked(None, key),
        }
    }

    /// What `get_str` returns once the lock was tried.
    pub fn get_str_locked(locked: Option<&PlainState>, key: &str) -> (r: Option<String>)
        ensures
            match locked {
                Some(s) => match s.lookup(key@) {
                    Some(JsonValue::String(t)) => r matches Some(c) && c@ == t@,
                    _ => r is None,
                },
                None => r is None,
            },
    {
        match locked {
            Some(s) => match s.get(key) {
                Some(v) => match v.as_str() {
                    Some(t) => {
                        let mut copy = String::new();
                        vstd::string::StringExecFns::append(&mut copy, t);
                        assert(copy@ =~= t@);
                        Some(copy)
                    },
                    None => None,
                },
                None => None,
            },
            None => None,
        }
    }

    /// The keys of the state, in ascending order (none when the state
    /// cannot be locked), as `keys_locked` gives them for the state the lock found.
    pub fn keys(&self) -> Vec<String> {
        match lock_state(&self.inner) {
            Some(guard) => Self::keys_locked(Some(guarded(&guard))),
            None => Self::keys_locked(None),
        }
    }

    /// What `keys` returns once the lock was tried.
    pub fn keys_locked(locked: Option<&PlainState>) -> (r: Vec<String>)
        ensures
            match locked {
                Some(s) => {
                    &&& r@.len() == s.entries_of().len()
                    &&& forall|i: int|
                        0 <= i < r@.len() ==> #[trigger] r@[i]@ == s.entries_of()[i].0@
                    &&& forall|i: int, j: int|
                        0 <= i < j < r@.len() ==> #[trigger] seq_lt(r@[i]@, r@[j]@)
                },
                None => r@.len() == 0,
            },
    {
        match locked {
            Some(s) => s.keys(),
            None => Vec::new(),
        }
    }
}

impl SharedState {
    /// What the state's `Debug` output shows: the number of handles
    /// sharing it, as `SharedState { arc_refs: <count> }`.
    pub fn debug_text(&self) -> (r: String)
        ensures
            exists|count: nat|
                count >= 1 && r@ == "SharedState { arc_refs: "@ + decimal(count) + " }"@,
    {
        let count = arc_strong_count(&self.inner);
        let mut r = String::new();
        r.append("SharedState { arc_refs: ");
        push_decimal(&mut r, count as u64);
        r.append(" }");
        assert(r@ =~= "SharedState { arc_refs: "@ + decimal(count as nat) + " }"@);
        r
    }
}

/// Reading back a write, on a locked state: when `after` is `before` with
/// `v` stored under `key` (what `PlainState::set` makes of it) and `r` is
/// what `SharedState::get_locked` gives for `after` and `key`, then `r`
/// holds a value equal to `v`, whatever kind of JSON value `v` is.
pub proof fn lemma_get_locked_reads_back_set(
    before: PlainState,
    after: PlainState,
    key: Seq<char>,
    v: JsonValue,
    r: Option<JsonValue>,
)
    requires
        forall|k: Seq<char>| #[trigger]
            after.lookup(k) == (if k == key {
                Some(v)
            } else {
                before.lookup(k)
            }),
        match after.lookup(key) {
            Some(w) => r matches Some(c) && json_eq(w, c),
            None => r is None,
        },
    ensures
        r matches Some(c) && json_eq(v, c),
{
    assert(after.lookup(key) == Some(v));
}

impl Clone for SharedState {
    /// Another handle to the same state.
    fn clone(&self) -> (r: Self)
        ensures
            r == *self,
    {
        SharedState { inner: arc_clone(&self.inner) }
    }
}

impl Default for SharedState {
    fn default() -> (r: Self) {
        Self::empty()
    }
}

} // verus!

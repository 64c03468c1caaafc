use erenflow::json::number::JsonNumber;
use erenflow::json::value::{JsonObject, JsonValue};
use erenflow::optimization::{CloneStats, OptimizedState};
use erenflow::state::plain::PlainState;
use erenflow::state::shared::{SharedState, State};

fn string_value(s: &str) -> JsonValue {
    JsonValue::String(s.to_string())
}

fn int_value(n: i64) -> JsonValue {
    JsonValue::Number(JsonNumber::from_i64(n))
}

#[test]
fn test_optimized_state_no_clone_on_read() {
    let state = State::empty();
    let opt = OptimizedState::new(state);

    // Reading doesn't require ownership
    let opt2 = opt.clone();
    assert_eq!(opt.strong_count(), 2);
    assert_eq!(opt2.strong_count(), 2);
}

#[test]
fn test_shared_state_creation() {
    let shared = SharedState::empty();
    assert!(shared.is_empty());
}

#[test]
fn test_shared_state_set_get() {
    let shared = SharedState::empty();
    shared.set("key", string_value("value"));
    assert_eq!(shared.get("key"), Some(string_value("value")));
}

#[test]
fn test_shared_state_arc_refs() {
    let shared = SharedState::empty();
    assert_eq!(shared.strong_count(), 1);

    let shared2 = shared.clone();
    assert_eq!(shared.strong_count(), 2);
    assert_eq!(shared2.strong_count(), 2);

    drop(shared2);
    assert_eq!(shared.strong_count(), 1);
}

#[test]
fn test_shared_state_with_mut() {
    let shared = SharedState::empty();
    shared
        .with_mut(|state| {
            state.set("counter", int_value(0));
        })
        .unwrap();

    shared
        .with_mut(|state| {
            let next = state.get("counter").and_then(|val| val.as_i64()).map(|count| count + 1);
            if let Some(count) = next {
                state.set("counter", int_value(count));
            }
        })
        .unwrap();

    assert_eq!(shared.get("counter"), Some(int_value(1)));
}

#[test]
fn test_shared_state_no_clone() {
    let shared1 = SharedState::empty();
    let mut items = JsonObject::new();
    items.insert("items".to_string(), JsonValue::Array(vec![int_value(1), int_value(2), int_value(3), int_value(4), int_value(5)]));
    shared1.set("large_data", JsonValue::Object(items));

    // Cloning the SharedState clones Arc, not the inner state
    let shared2 = shared1.clone();
    assert_eq!(shared1.strong_count(), 2);

    // Both references point to the same state
    assert_eq!(shared1.get("large_data"), shared2.get("large_data"));
}

#[test]
fn clones_share_writes() {
    let a = SharedState::empty();
    let b = a.clone();
    a.set("x", int_value(7));
    assert_eq!(b.get("x"), Some(int_value(7)));
    assert!(b.contains_key("x"));
    assert_eq!(b.remove("x"), Some(int_value(7)));
    assert!(!a.contains_key("x"));
    assert_eq!(a.len(), 0);
}

#[test]
fn shared_state_reads() {
    let s = SharedState::default();
    s.set("b", string_value("two"));
    s.set("a", int_value(1));
    assert_eq!(s.len(), 2);
    assert!(!s.is_empty());
    assert_eq!(s.keys(), vec!["a".to_string(), "b".to_string()]);
    assert_eq!(s.get_str("b"), Some("two".to_string()));
    assert_eq!(s.get_str("a"), None);
    assert_eq!(s.get_str("missing"), None);
    assert_eq!(s.as_map().len(), 2);
    match s.to_value() {
        JsonValue::Object(o) => assert_eq!(o.keys(), vec!["a".to_string(), "b".to_string()]),
        other => panic!("unexpected {:?}", other),
    }
    assert_eq!(s.with(|st| st.len()).unwrap(), 2);
    let plain = s.clone().into_state().unwrap();
    assert_eq!(plain.get("b"), Some(&string_value("two")));
    assert!(s.try_lock().is_some());
    assert_eq!(s.try_lock().unwrap().len(), 2);
}

#[test]
fn shared_state_merge_overrides() {
    let a = SharedState::empty();
    a.set("a", int_value(1));
    a.set("keep", int_value(5));
    let b = SharedState::empty();
    b.set("a", int_value(10));
    b.set("b", int_value(2));
    a.merge(b).unwrap();
    assert_eq!(a.get("a"), Some(int_value(10)));
    assert_eq!(a.get("b"), Some(int_value(2)));
    assert_eq!(a.get("keep"), Some(int_value(5)));
}

#[test]
fn plain_state_set_get_remove() {
    let mut p = PlainState::new();
    assert!(p.is_empty());
    p.set("k", int_value(1));
    p.set("k", int_value(2));
    assert_eq!(p.get("k"), Some(&int_value(2)));
    assert_eq!(p.len(), 1);
    assert_eq!(p.remove("k"), Some(int_value(2)));
    assert_eq!(p.remove("k"), None);
    assert!(!p.contains_key("k"));
}

#[test]
fn plain_state_merge_keeps_other_keys() {
    let mut p = PlainState::new();
    p.set("x", int_value(1));
    p.set("y", int_value(2));
    let mut q = PlainState::new();
    q.set("y", int_value(20));
    q.set("z", int_value(30));
    p.merge(q);
    assert_eq!(p.keys(), vec!["x".to_string(), "y".to_string(), "z".to_string()]);
    assert_eq!(p.get("y"), Some(&int_value(20)));
    assert_eq!(p.get("x"), Some(&int_value(1)));
}

#[test]
fn optimized_state_round_trips() {
    let s = State::empty();
    s.set("k", int_value(3));
    let mut opt = OptimizedState::new(s);
    assert!(opt.is_owned());
    assert_eq!(opt.as_ref().get("k"), Some(int_value(3)));
    opt.as_mut().set("k", int_value(4));
    assert_eq!(opt.as_ref().get("k"), Some(int_value(4)));
    let other = opt.clone();
    assert!(!opt.is_owned());
    // taking mutable access detaches the handle, but a state clone still
    // shares its data
    opt.as_mut().set("k", int_value(5));
    assert_eq!(opt.strong_count(), 1);
    assert_eq!(other.as_ref().get("k"), Some(int_value(5)));
    let owned = opt.into_owned();
    assert_eq!(owned.get("k"), Some(int_value(5)));
    let shared_owned = other.clone().into_owned();
    assert_eq!(shared_owned.get("k"), Some(int_value(5)));
}

#[test]
fn clone_stats_summary_text() {
    let stats = CloneStats { clone_count: 10, mutation_count: 8, estimated_bytes_cloned: 1024 };
    assert_eq!(
        stats.summary("80.00"),
        "Clones: 10, Mutations: 8, Efficiency: 80.00%, Est. Data: 1024 bytes"
    );
    let empty = CloneStats::default();
    assert_eq!(empty.summary("0.00"), "Clones: 0, Mutations: 0, Efficiency: 0.00%, Est. Data: 0 bytes");
}

#[test]
fn plain_state_default_is_empty() {
    let p = PlainState::default();
    assert!(p.is_empty());
    assert_eq!(p.keys(), Vec::<String>::new());
    let shared = SharedState::new(PlainState::default());
    assert_eq!(shared.len(), 0);
    assert!(shared.keys().is_empty());
}

#[test]
fn locked_reads_of_a_state_and_of_a_failed_lock() {
    let mut p = PlainState::new();
    p.set("name", string_value("Ada"));
    p.set("n", int_value(4));
    assert_eq!(SharedState::get_locked(Some(&p), "n"), Some(int_value(4)));
    assert_eq!(SharedState::get_locked(Some(&p), "missing"), None);
    assert_eq!(SharedState::get_locked(None, "n"), None);
    assert!(SharedState::contains_key_locked(Some(&p), "name"));
    assert!(!SharedState::contains_key_locked(None, "name"));
    assert_eq!(SharedState::len_locked(Some(&p)), 2);
    assert_eq!(SharedState::len_locked(None), 0);
    assert_eq!(SharedState::keys_locked(Some(&p)), vec!["n".to_string(), "name".to_string()]);
    assert!(SharedState::keys_locked(None).is_empty());
    assert_eq!(SharedState::as_map_locked(Some(&p)).len(), 2);
    assert!(SharedState::as_map_locked(None).is_empty());
    match SharedState::to_value_locked(None) {
        JsonValue::Object(o) => assert!(o.is_empty()),
        other => panic!("unexpected {:?}", other),
    }
    assert_eq!(SharedState::get_str_locked(Some(&p), "name"), Some("Ada".to_string()));
    assert_eq!(SharedState::get_str_locked(Some(&p), "n"), None);
    assert_eq!(SharedState::get_str_locked(None, "name"), None);
    let copy = SharedState::into_state_locked(Some(&p)).unwrap();
    assert_eq!(copy.get("n"), Some(&int_value(4)));
    match SharedState::into_state_locked(None) {
        Err(e) => assert_eq!(e.message(), "State error: Failed to lock state"),
        Ok(_) => panic!("a failed lock gives the lock error"),
    }
}

#[test]
fn shared_state_debug_text_counts_handles() {
    let s = SharedState::empty();
    assert_eq!(s.debug_text(), "SharedState { arc_refs: 1 }");
    let t = s.clone();
    assert_eq!(t.debug_text(), "SharedState { arc_refs: 2 }");
}

#[test]
fn merge_refuses_a_handle_to_its_own_state() {
    let s = SharedState::empty();
    s.set("k", int_value(1));
    match s.merge(s.clone()) {
        Err(e) => assert_eq!(e.message(), "State error: Cannot merge a state into itself"),
        Ok(()) => panic!("merging a state into itself is refused"),
    }
    assert_eq!(s.get("k"), Some(int_value(1)));
    // the refused call took no lock, so the state stays usable
    assert!(s.try_lock().is_some());
}

#[test]
fn is_empty_for_a_state_and_for_a_failed_lock() {
    let mut p = PlainState::new();
    assert!(SharedState::is_empty_locked(Some(&p)));
    p.set("a", int_value(1));
    assert!(!SharedState::is_empty_locked(Some(&p)));
    assert!(SharedState::is_empty_locked(None));
    let s = SharedState::new(p);
    assert!(!s.is_empty());
    assert_eq!(s.is_empty(), s.len() == 0);
}

#[test]
fn owned_given_flag_and_count() {
    assert!(OptimizedState::owned_given(true, 1));
    assert!(!OptimizedState::owned_given(true, 2));
    assert!(!OptimizedState::owned_given(false, 1));
    let o = OptimizedState::new(State::empty());
    assert!(o.is_owned());
    let o2 = o.clone();
    assert!(!o.is_owned() && !o2.is_owned());
    drop(o2);
    // the flag stays set, so the sole handle is owned again
    assert!(o.is_owned());
}

#[test]
fn reentrant_operations_fail_instead_of_hanging() {
    let s = SharedState::empty();
    s.set("k", int_value(1));
    let other = s.clone();
    {
        let _guard = s.try_lock().unwrap();
        // the state is locked: operations on any handle act as on a failed lock
        assert!(other.try_lock().is_none());
        other.set("k", int_value(2));
        assert_eq!(other.get("k"), None);
        assert_eq!(other.len(), 0);
        assert!(!s.is_poisoned());
    }
    assert_eq!(s.get("k"), Some(int_value(1)));
    let mut inside = Some(int_value(0));
    s.with_mut(|state| {
        state.set("k", int_value(3));
        inside = other.get("k");
    })
    .unwrap();
    assert_eq!(inside, None);
    let seen = s.with(|_| other.contains_key("k")).unwrap();
    assert!(!seen);
    assert_eq!(s.get("k"), Some(int_value(3)));
    match s.merge(SharedState::empty()) {
        Ok(()) => {}
        Err(e) => panic!("unexpected {:?}", e),
    }
}

#[test]
fn keys_come_once_in_order() {
    let mut p = PlainState::new();
    for k in ["b", "a", "c", "a"] {
        p.set(k, JsonValue::Null);
    }
    assert_eq!(SharedState::keys_locked(Some(&p)), vec!["a".to_string(), "b".to_string(), "c".to_string()]);
}

#[test]
fn string_reads_agree() {
    let mut p = PlainState::new();
    p.set("s", string_value("x"));
    p.set("n", int_value(42));
    assert_eq!(SharedState::get_locked(Some(&p), "s"), Some(string_value("x")));
    assert_eq!(SharedState::get_str_locked(Some(&p), "s"), Some("x".to_string()));
    assert_eq!(SharedState::get_str_locked(Some(&p), "n"), None);
    let s = SharedState::new(p);
    assert_eq!(s.get_str("s"), Some("x".to_string()));
    assert_eq!(s.get("s"), Some(string_value("x")));
}

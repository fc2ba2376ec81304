use agents_framework::agents_workflows::state::{StateManager, StateSnapshot};
use serde_json::Value;

#[test]
fn queued_updates_are_invisible_until_applied() {
    let mut state = StateManager::new();
    state.queue_state_update("s", "k", Value::from(1)).unwrap();
    assert_eq!(state.read_state("s", "k").unwrap(), None);
    state.apply_queued_updates().unwrap();
    assert_eq!(state.read_state("s", "k").unwrap(), Some(Value::from(1)));
}

#[test]
fn last_queued_update_wins() {
    let mut state = StateManager::default();
    state.queue_state_update("s", "k", Value::from(1)).unwrap();
    state.queue_state_update("s", "k", Value::from(2)).unwrap();
    state.apply_queued_updates().unwrap();
    assert_eq!(state.read_state("s", "k").unwrap(), Some(Value::from(2)));
}

#[test]
fn scopes_are_separate() {
    let mut state = StateManager::new();
    state.queue_state_update("a", "k", Value::from("x")).unwrap();
    state.queue_state_update("b", "k", Value::from("y")).unwrap();
    state.apply_queued_updates().unwrap();
    assert_eq!(state.read_state("a", "k").unwrap(), Some(Value::from("x")));
    assert_eq!(state.read_state("b", "k").unwrap(), Some(Value::from("y")));
    assert_eq!(state.read_state("c", "k").unwrap(), None);
}

#[test]
fn clearing_a_scope_empties_it_only() {
    let mut state = StateManager::new();
    state.queue_state_update("a", "k1", Value::from(1)).unwrap();
    state.queue_state_update("a", "k2", Value::from(2)).unwrap();
    state.queue_state_update("b", "k1", Value::from(3)).unwrap();
    state.apply_queued_updates().unwrap();
    state.queue_clear_scope("a").unwrap();
    state.apply_queued_updates().unwrap();
    assert!(state.read_state_keys("a").unwrap().is_empty());
    assert_eq!(state.read_state_keys("b").unwrap(), vec!["k1".to_string()]);
}

#[test]
fn keys_of_a_scope_are_listed_once() {
    let mut state = StateManager::new();
    state.queue_state_update("a", "k1", Value::from(1)).unwrap();
    state.queue_state_update("a", "k2", Value::from(2)).unwrap();
    state.queue_state_update("a", "k1", Value::from(3)).unwrap();
    state.apply_queued_updates().unwrap();
    let mut keys = state.read_state_keys("a").unwrap();
    keys.sort();
    assert_eq!(keys, vec!["k1".to_string(), "k2".to_string()]);
}

#[test]
fn read_or_init_queues_the_initial_value() {
    let mut state = StateManager::new();
    let v = state.read_or_init_state("s", "k", || Value::from(5)).unwrap();
    assert_eq!(v, Value::from(5));
    assert_eq!(state.read_state("s", "k").unwrap(), None);
    state.apply_queued_updates().unwrap();
    assert_eq!(state.read_state("s", "k").unwrap(), Some(Value::from(5)));
    let again = state.read_or_init_state("s", "k", || Value::from(9)).unwrap();
    assert_eq!(again, Value::from(5));
}

#[test]
fn snapshot_round_trip_restores_state() {
    let mut state = StateManager::new();
    state.queue_state_update("a", "k", Value::from(1)).unwrap();
    state.apply_queued_updates().unwrap();
    let snapshot = state.get_snapshot();
    assert_eq!(snapshot.entries().len(), 1);

    let mut other = StateManager::new();
    other.queue_state_update("z", "z", Value::from(0)).unwrap();
    other.apply_queued_updates().unwrap();
    other.restore_from_snapshot(&snapshot);
    assert_eq!(other.read_state("a", "k").unwrap(), Some(Value::from(1)));
    assert_eq!(other.read_state("z", "z").unwrap(), None);
}

#[test]
fn snapshot_built_by_hand_restores() {
    let mut snapshot = StateSnapshot::new();
    snapshot.insert("s".to_string(), "k".to_string(), Value::from(true));
    let empty = StateSnapshot::default();
    assert!(empty.entries().is_empty());
    let mut state = StateManager::new();
    state.restore_from_snapshot(&snapshot);
    assert_eq!(state.read_state("s", "k").unwrap(), Some(Value::from(true)));
}

use execution_engine::error::StorageError;
use execution_engine::global_state::{EffectSet, GlobalState};
use execution_engine::key::Key;
use execution_engine::transform::Transform;
use execution_engine::value::Value;

fn key(n: u8) -> Key {
    Key::Hash([n; 32])
}

#[test]
fn new_store_is_empty_at_version_zero() {
    let state = GlobalState::new();
    assert_eq!(state.version(), 0);
    assert_eq!(GlobalState::read(&state.snapshot(), &key(1)), None);
    assert_eq!(state.snapshot().version(), 0);
}

#[test]
fn commit_applies_every_transform_and_makes_a_version() {
    let mut state = GlobalState::new();
    let mut effects = EffectSet::new();
    effects.insert(key(1), Transform::Write(Value::Number(1)));
    effects.insert(key(2), Transform::Add(5));
    effects.insert(key(3), Transform::Write(Value::Bytes(vec![1])));
    assert_eq!(state.commit(&effects), Ok(1));
    assert_eq!(state.version(), 1);
    let snapshot = state.snapshot();
    assert_eq!(snapshot.version(), 1);
    assert_eq!(snapshot.get(&key(1)), Some(Value::Number(1)));
    assert_eq!(snapshot.get(&key(2)), Some(Value::Number(5)));
    assert_eq!(snapshot.get(&key(3)), Some(Value::Bytes(vec![1])));
    assert_eq!(snapshot.get(&key(4)), None);
}

#[test]
fn commit_accumulates_onto_the_committed_value() {
    let mut state = GlobalState::new();
    state.apply(key(1), Transform::Write(Value::Number(40))).unwrap();
    let mut effects = EffectSet::new();
    effects.insert(key(1), Transform::Add(2));
    assert_eq!(state.commit(&effects), Ok(2));
    assert_eq!(state.snapshot().get(&key(1)), Some(Value::Number(42)));
}

#[test]
fn commit_is_all_or_nothing() {
    let mut state = GlobalState::new();
    state.apply(key(1), Transform::Write(Value::Number(1))).unwrap();
    state.apply(key(2), Transform::Write(Value::Bytes(vec![2]))).unwrap();
    let mut effects = EffectSet::new();
    effects.insert(key(1), Transform::Add(10));
    effects.insert(key(3), Transform::Write(Value::Number(3)));
    effects.insert(key(2), Transform::Add(10));
    assert_eq!(state.commit(&effects), Err(StorageError::TypeMismatch));
    assert_eq!(state.version(), 2);
    let snapshot = state.snapshot();
    assert_eq!(snapshot.get(&key(1)), Some(Value::Number(1)));
    assert_eq!(snapshot.get(&key(2)), Some(Value::Bytes(vec![2])));
    assert_eq!(snapshot.get(&key(3)), None);
}

#[test]
fn empty_commit_makes_a_version_and_changes_nothing() {
    let mut state = GlobalState::new();
    state.apply(key(1), Transform::Write(Value::Number(1))).unwrap();
    assert_eq!(state.commit(&EffectSet::new()), Ok(2));
    assert_eq!(state.snapshot().get(&key(1)), Some(Value::Number(1)));
}

#[test]
fn snapshot_is_isolated_from_later_commits() {
    let mut state = GlobalState::new();
    state.apply(key(1), Transform::Write(Value::Number(1))).unwrap();
    let snapshot = state.snapshot();
    let mut effects = EffectSet::new();
    effects.insert(key(1), Transform::Write(Value::Number(2)));
    effects.insert(key(2), Transform::Write(Value::Number(3)));
    state.commit(&effects).unwrap();
    assert_eq!(GlobalState::read(&snapshot, &key(1)), Some(Value::Number(1)));
    assert_eq!(GlobalState::read(&snapshot, &key(2)), None);
    assert_eq!(snapshot.version(), 1);
    let later = state.snapshot();
    assert_eq!(GlobalState::read(&later, &key(1)), Some(Value::Number(2)));
    assert_eq!(GlobalState::read(&later, &key(2)), Some(Value::Number(3)));
    assert_eq!(later.version(), 2);
}

#[test]
fn snapshot_is_isolated_from_unrelated_commits() {
    let mut state = GlobalState::new();
    state.apply(key(1), Transform::Write(Value::Number(1))).unwrap();
    let snapshot = state.snapshot();
    state.apply(key(9), Transform::Write(Value::Number(9))).unwrap();
    assert_eq!(GlobalState::read(&snapshot, &key(1)), Some(Value::Number(1)));
    assert_eq!(GlobalState::read(&snapshot, &key(9)), None);
    assert_eq!(GlobalState::read(&state.snapshot(), &key(1)), Some(Value::Number(1)));
}

#[test]
fn disjoint_effect_sets_commit_in_either_order() {
    let mut base = GlobalState::new();
    base.apply(key(1), Transform::Write(Value::Number(1))).unwrap();
    base.apply(key(2), Transform::Write(Value::Number(2))).unwrap();
    let mut first = EffectSet::new();
    first.insert(key(1), Transform::Add(10));
    first.insert(key(3), Transform::Write(Value::Bytes(vec![3])));
    let mut second = EffectSet::new();
    second.insert(key(2), Transform::Add(20));
    second.insert(key(4), Transform::Add(4));

    let mut one = base.clone();
    assert_eq!(one.commit(&first), Ok(3));
    let only_first = one.snapshot();
    assert_eq!(only_first.get(&key(1)), Some(Value::Number(11)));
    assert_eq!(only_first.get(&key(3)), Some(Value::Bytes(vec![3])));
    assert_eq!(only_first.get(&key(2)), Some(Value::Number(2)));
    assert_eq!(only_first.get(&key(4)), None);
    assert_eq!(one.commit(&second), Ok(4));

    let mut other = base.clone();
    assert_eq!(other.commit(&second), Ok(3));
    let only_second = other.snapshot();
    assert_eq!(only_second.get(&key(2)), Some(Value::Number(22)));
    assert_eq!(only_second.get(&key(4)), Some(Value::Number(4)));
    assert_eq!(only_second.get(&key(1)), Some(Value::Number(1)));
    assert_eq!(only_second.get(&key(3)), None);
    assert_eq!(other.commit(&first), Ok(4));

    let a = one.snapshot();
    let b = other.snapshot();
    let mut n: u8 = 0;
    while n < 6 {
        assert_eq!(a.get(&key(n)), b.get(&key(n)));
        n += 1;
    }
    assert_eq!(a.get(&key(1)), Some(Value::Number(11)));
    assert_eq!(a.get(&key(2)), Some(Value::Number(22)));
}

#[test]
fn single_add_to_an_empty_slot_commits_the_delta() {
    let mut state = GlobalState::new();
    assert_eq!(state.apply(key(1), Transform::Add(5)), Ok(()));
    assert_eq!(state.snapshot().get(&key(1)), Some(Value::Number(5)));
    assert_eq!(state.version(), 1);
}

#[test]
fn single_add_to_other_data_fails_and_changes_nothing() {
    let mut state = GlobalState::new();
    state.apply(key(1), Transform::Write(Value::Bytes(vec![1]))).unwrap();
    assert_eq!(state.apply(key(1), Transform::Add(5)), Err(StorageError::TypeMismatch));
    assert_eq!(state.version(), 1);
    assert_eq!(state.snapshot().get(&key(1)), Some(Value::Bytes(vec![1])));
}

#[test]
fn effect_set_keeps_one_entry_per_key() {
    let mut effects = EffectSet::new();
    assert!(effects.is_empty());
    effects.insert(key(1), Transform::Add(1));
    effects.insert(key(2), Transform::Add(2));
    effects.insert(key(1), Transform::Add(3));
    assert_eq!(effects.len(), 2);
    assert_eq!(effects.get(&key(1)), Some(&Transform::Add(3)));
    assert_eq!(effects.get(&key(2)), Some(&Transform::Add(2)));
    assert_eq!(effects.get(&key(3)), None);
    assert!(effects.contains_key(&key(2)));
    assert!(!effects.contains_key(&key(3)));
    let (k, t) = effects.entry(0);
    assert_eq!(k, key(1));
    assert_eq!(t, &Transform::Add(3));
    let copy = effects.duplicate();
    assert_eq!(copy.len(), 2);
    assert_eq!(copy.get(&key(1)), Some(&Transform::Add(3)));
}

#[test]
fn store_can_begin_at_a_later_version() {
    let mut state = GlobalState::at_version(41);
    assert_eq!(state.version(), 41);
    assert_eq!(state.apply(key(1), Transform::Add(1)), Ok(()));
    assert_eq!(state.version(), 42);
}

#[test]
fn commit_fails_when_the_versions_are_used_up() {
    let mut state = GlobalState::at_version(u64::MAX - 1);
    assert_eq!(state.apply(key(1), Transform::Write(Value::Number(1))), Ok(()));
    assert_eq!(state.version(), u64::MAX);
    let mut effects = EffectSet::new();
    effects.insert(key(1), Transform::Add(1));
    assert_eq!(state.commit(&effects), Err(StorageError::VersionExhausted));
    assert_eq!(state.apply(key(2), Transform::Add(1)), Err(StorageError::VersionExhausted));
    assert_eq!(state.version(), u64::MAX);
    assert_eq!(state.snapshot().get(&key(1)), Some(Value::Number(1)));
    assert_eq!(state.snapshot().get(&key(2)), None);
}

#[test]
fn snapshot_copies_hold_the_same() {
    let mut state = GlobalState::new();
    state.apply(key(1), Transform::Write(Value::Number(1))).unwrap();
    let snapshot = state.snapshot();
    let copy = snapshot.duplicate();
    assert_eq!(copy.version(), 1);
    assert_eq!(copy.get(&key(1)), Some(Value::Number(1)));
}

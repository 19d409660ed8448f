use execution_engine::error::StorageError;
use execution_engine::transform::Transform;
use execution_engine::value::{Duplicate, Value};

#[test]
fn write_after_write_keeps_the_later() {
    let first = Transform::Write(Value::Number(1));
    let merged = first.merge(Transform::Write(Value::Bytes(vec![1, 2])));
    assert_eq!(merged, Ok(Transform::Write(Value::Bytes(vec![1, 2]))));
}

#[test]
fn write_after_add_keeps_the_write() {
    let first = Transform::Add(10);
    let merged = first.merge(Transform::Write(Value::Number(3)));
    assert_eq!(merged, Ok(Transform::Write(Value::Number(3))));
}

#[test]
fn add_after_write_folds_into_the_write() {
    let first = Transform::Write(Value::Number(40));
    assert_eq!(first.merge(Transform::Add(2)), Ok(Transform::Write(Value::Number(42))));
}

#[test]
fn add_after_write_of_other_data_is_a_mismatch() {
    let first = Transform::Write(Value::Bytes(vec![7]));
    assert_eq!(first.merge(Transform::Add(2)), Err(StorageError::TypeMismatch));
    let contract = Transform::Write(Value::Contract { bytes: vec![0, 1], protocol_version: 1 });
    assert_eq!(contract.merge(Transform::Add(2)), Err(StorageError::TypeMismatch));
}

#[test]
fn add_after_add_sums() {
    assert_eq!(Transform::Add(5).merge(Transform::Add(6)), Ok(Transform::Add(11)));
}

#[test]
fn addition_wraps_around() {
    assert_eq!(Transform::Add(u64::MAX).merge(Transform::Add(1)), Ok(Transform::Add(0)));
    assert_eq!(Transform::Add(u64::MAX).merge(Transform::Add(u64::MAX)), Ok(Transform::Add(u64::MAX - 1)));
    assert_eq!(Value::Number(u64::MAX).accumulate(2), Ok(Value::Number(1)));
}

#[test]
fn additions_merge_the_same_in_any_grouping() {
    let a = 0xFFFF_FFFF_FFFF_FFF0u64;
    let b = 0x20u64;
    let c = 0xFFFF_FFFF_0000_0000u64;
    let left = Transform::Add(a).merge(Transform::Add(b)).unwrap().merge(Transform::Add(c));
    let inner = Transform::Add(b).merge(Transform::Add(c)).unwrap();
    let right = Transform::Add(a).merge(inner);
    assert_eq!(left, right);
    let swapped = Transform::Add(b).merge(Transform::Add(a)).unwrap().merge(Transform::Add(c));
    assert_eq!(left, swapped);
    assert_eq!(left, Ok(Transform::Add(a.wrapping_add(b).wrapping_add(c))));
}

#[test]
fn write_adds_write_is_the_last_write() {
    let mut record = Transform::Write(Value::Number(1));
    let mut i: u64 = 0;
    while i < 10 {
        record = record.merge(Transform::Add(i)).unwrap();
        i += 1;
    }
    assert_eq!(record, Transform::Write(Value::Number(46)));
    let last = record.merge(Transform::Write(Value::Bytes(vec![9, 9])));
    assert_eq!(last, Ok(Transform::Write(Value::Bytes(vec![9, 9]))));
}

#[test]
fn apply_write_replaces() {
    let t = Transform::Write(Value::Number(8));
    assert_eq!(t.apply(None), Ok(Value::Number(8)));
    assert_eq!(t.apply(Some(&Value::Bytes(vec![1]))), Ok(Value::Number(8)));
}

#[test]
fn apply_add_counts_an_empty_slot_as_zero() {
    assert_eq!(Transform::Add(5).apply(None), Ok(Value::Number(5)));
}

#[test]
fn apply_add_accumulates() {
    assert_eq!(Transform::Add(5).apply(Some(&Value::Number(37))), Ok(Value::Number(42)));
}

#[test]
fn apply_add_to_other_data_is_a_mismatch() {
    assert_eq!(Transform::Add(5).apply(Some(&Value::Bytes(vec![]))), Err(StorageError::TypeMismatch));
}

#[test]
fn applying_a_merge_is_applying_its_parts() {
    let current = Value::Number(100);
    let first = Transform::Add(7);
    let second = Transform::Add(u64::MAX);
    let merged = first.merge(second.duplicate()).unwrap();
    let at_once = merged.apply(Some(&current)).unwrap();
    let step = first.apply(Some(&current)).unwrap();
    let in_steps = second.apply(Some(&step)).unwrap();
    assert_eq!(at_once, in_steps);
    assert_eq!(at_once, Value::Number(106));
}

#[test]
fn only_numbers_accumulate() {
    assert!(Value::Number(0).is_accumulator());
    assert!(!Value::Bytes(vec![0]).is_accumulator());
    assert_eq!(Value::Bytes(vec![0]).accumulate(1), Err(StorageError::TypeMismatch));
}

#[test]
fn duplicates_are_equal() {
    let v = Value::Contract { bytes: vec![1, 2, 3], protocol_version: 4 };
    assert_eq!(v.duplicate(), v);
    let t = Transform::Write(Value::Bytes(vec![5, 6]));
    assert_eq!(t.duplicate(), t);
}

use l1x_sdk::{storage_read, TestRuntimeVMLogic, Vector};

#[test]
fn test_vector_new_and_len() {
    let vector: Vector<i32> = Vector::new(b"test".to_vec());
    assert_eq!(vector.len(), 0);
}

#[test]
fn test_vector_push_and_get() {
    let mut env = TestRuntimeVMLogic::new();
    let mut vector: Vector<i32> = Vector::new(b"test".to_vec());
    vector.push(10);
    assert_eq!(vector.len(), 1);
    assert_eq!(vector.get(&mut env, 0), Some(&10));
}

#[test]
fn test_vector_set_and_get_mut() {
    let mut env = TestRuntimeVMLogic::new();
    let mut vector: Vector<i32> = Vector::new(b"test".to_vec());
    vector.push(10);
    vector.set(0, 20);
    assert_eq!(vector.get(&mut env, 0), Some(&20));
    if let Some(value) = vector.get_mut(&mut env, 0) {
        *value = 30;
    }
    assert_eq!(vector.get(&mut env, 0), Some(&30));
}

#[test]
fn test_vector_out_of_bounds() {
    let mut env = TestRuntimeVMLogic::new();
    let mut vector: Vector<i32> = Vector::new(b"test".to_vec());
    assert_eq!(vector.get(&mut env, 0), None);
}

#[test]
fn test_vector_non_empty_prefix() {
    let vector: Vector<i32> = Vector::new(b"non_empty_prefix".to_vec());
    assert_eq!(vector.len(), 0);
}

#[test]
fn test_vector_push_multiple() {
    let mut env = TestRuntimeVMLogic::new();
    let mut vector: Vector<i32> = Vector::new(b"test".to_vec());
    vector.push(10);
    vector.push(20);
    vector.push(30);
    assert_eq!(vector.len(), 3);
    assert_eq!(vector.get(&mut env, 0), Some(&10));
    assert_eq!(vector.get(&mut env, 1), Some(&20));
    assert_eq!(vector.get(&mut env, 2), Some(&30));
}

#[test]
fn test_push_persistence() {
    let mut env = TestRuntimeVMLogic::new();
    let mut vector: Vector<i32> = Vector::new(b"test".to_vec());

    vector.push(10);
    vector.flush(&mut env);

    // Construct the expected storage key
    let mut expected_key = b"test".to_vec();
    expected_key.extend_from_slice(&0u32.to_le_bytes());

    // Check that the value has been written in the underlying storage
    let written = storage_read(&mut env, &expected_key).unwrap();
    assert_eq!(written, 10i32.to_le_bytes().to_vec());
}

#[test]
fn test_set_persistence() {
    let mut env = TestRuntimeVMLogic::new();
    let mut vector: Vector<i32> = Vector::new(b"test".to_vec());

    vector.push(10);
    vector.set(0, 20);
    vector.flush(&mut env);

    // Construct the expected storage key
    let mut expected_key = b"test".to_vec();
    expected_key.extend_from_slice(&0u32.to_le_bytes());

    // Check that the value has been updated in the underlying storage
    let written = storage_read(&mut env, &expected_key).unwrap();
    assert_eq!(written, 20i32.to_le_bytes().to_vec());
}

#[test]
fn array_scenario() {
    let mut env = TestRuntimeVMLogic::new();
    let mut vector: Vector<i32> = Vector::new(b"v".to_vec());
    vector.push(10);
    vector.push(20);
    vector.set(0, 99);
    assert_eq!(vector.len(), 2);
    assert_eq!(vector.get(&mut env, 0), Some(&99));
    assert_eq!(vector.get(&mut env, 1), Some(&20));
}

#[test]
fn flush_round_trip_through_fresh_instance() {
    let mut env = TestRuntimeVMLogic::new();
    let mut vector: Vector<i32> = Vector::new(b"rt".to_vec());
    vector.push(-7);
    vector.push(41);
    vector.flush(&mut env);

    // Rebuild the array from its own record: same length, same prefix,
    // every slot unknown, so these reads resolve from storage, not from
    // any cache the writer held.
    let record = vector.serialize();
    let mut fresh: Vector<i32> = Vector::deserialize(record.as_slice()).unwrap();
    assert_eq!(fresh.len(), 2);
    assert_eq!(fresh.get(&mut env, 0), Some(&-7));
    assert_eq!(fresh.get(&mut env, 1), Some(&41));
}

#[test]
fn get_beyond_len_is_none_even_with_stale_record() {
    let mut env = TestRuntimeVMLogic::new();
    let mut long: Vector<i32> = Vector::new(b"p".to_vec());
    long.push(1);
    long.push(2);
    long.flush(&mut env);

    // A fresh, shorter array over the same prefix: index 1 has a stored
    // record, but it is logically absent beyond the length.
    let mut short: Vector<i32> = Vector::new(b"p".to_vec());
    short.push(1);
    assert_eq!(short.get(&mut env, 1), None);
}

#[test]
fn serialize_round_trip() {
    let vector: Vector<i32> = Vector::new(b"pre".to_vec());
    let record = vector.serialize();
    assert_eq!(record, vec![0, 0, 0, 0, 3, 0, 0, 0, b'p', b'r', b'e']);
    let back: Vector<i32> = Vector::deserialize(record.as_slice()).unwrap();
    assert_eq!(back.len(), 0);
    assert_eq!(back.serialize(), record);
    assert!(Vector::<i32>::deserialize(b"junk").is_none());
}

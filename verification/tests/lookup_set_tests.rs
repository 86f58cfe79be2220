use l1x_sdk::store::lookup_set::to_key;
use l1x_sdk::{storage_read, LookupSet, TestRuntimeVMLogic};

#[test]
fn test_new() {
    let set: LookupSet<i32> = LookupSet::new(b"test".to_vec());
    assert_eq!(set.prefix().as_slice(), b"test");
}

#[test]
fn test_insert() {
    let mut env = TestRuntimeVMLogic::new();
    let mut set: LookupSet<i32> = LookupSet::new(b"test".to_vec());

    // Insert value
    assert!(set.insert(&mut env, 10));

    // Inserting the same value again should return false
    assert!(!set.insert(&mut env, 10));
}

#[test]
fn test_contains() {
    let mut env = TestRuntimeVMLogic::new();
    let mut set: LookupSet<i32> = LookupSet::new(b"test".to_vec());

    // Insert value
    set.insert(&mut env, 10);

    // Check for inserted value
    assert!(set.contains(&mut env, &10));

    // Check for non-inserted value
    assert!(!set.contains(&mut env, &20));
}

#[test]
fn test_insert_duplicate_values() {
    let mut env = TestRuntimeVMLogic::new();
    let mut set: LookupSet<i32> = LookupSet::new(b"test".to_vec());

    // Insert a value
    assert!(set.insert(&mut env, 1));

    // Try to insert the same value again. This time it should return false
    // because it is a duplicate.
    assert!(!set.insert(&mut env, 1));
}

#[test]
fn test_contains_non_existent_value() {
    let mut env = TestRuntimeVMLogic::new();
    let set: LookupSet<i32> = LookupSet::new(b"test".to_vec());

    // Check for a value that hasn't been inserted
    assert!(!set.contains(&mut env, &15));
}

#[test]
fn test_insert_persistence() {
    let mut env = TestRuntimeVMLogic::new();
    let mut set: LookupSet<i32> = LookupSet::new(b"test".to_vec());

    // Insert value
    assert!(set.insert(&mut env, 10));

    // Check storage for value
    let lookup_key = to_key(set.prefix().as_slice(), &10, &mut Vec::new());
    let stored_value = storage_read(&mut env, lookup_key.as_slice());

    assert!(
        stored_value.is_some(),
        "Expected the value to be set in storage"
    );
}

#[test]
fn test_remove() {
    let mut env = TestRuntimeVMLogic::new();
    let mut lookup_set: LookupSet<u32> = LookupSet::new(vec![0, 1, 2]);

    // Insert values
    lookup_set.insert(&mut env, 10);
    lookup_set.insert(&mut env, 20);
    lookup_set.insert(&mut env, 30);

    // Check if values exist
    assert_eq!(lookup_set.contains(&mut env, &10), true);
    assert_eq!(lookup_set.contains(&mut env, &20), true);
    assert_eq!(lookup_set.contains(&mut env, &30), true);

    // Remove values
    assert_eq!(lookup_set.remove(&mut env, &10), true);
    assert_eq!(lookup_set.remove(&mut env, &20), true);

    // Check if values exist after removing
    assert_eq!(lookup_set.contains(&mut env, &10), false);
    assert_eq!(lookup_set.contains(&mut env, &20), false);
    assert_eq!(lookup_set.contains(&mut env, &30), true);

    // Remove a value not present in the set
    assert_eq!(lookup_set.remove(&mut env, &40), false);
}

#[test]
fn set_scenario_full_round() {
    let mut env = TestRuntimeVMLogic::new();
    let mut set: LookupSet<i32> = LookupSet::new(b"s".to_vec());
    assert_eq!(set.insert(&mut env, 10), true);
    assert_eq!(set.insert(&mut env, 10), false);
    assert_eq!(set.contains(&mut env, &10), true);
    assert_eq!(set.remove(&mut env, &10), true);
    assert_eq!(set.contains(&mut env, &10), false);
    assert_eq!(set.remove(&mut env, &10), false);
}

#[test]
fn extend_inserts_every_value() {
    let mut env = TestRuntimeVMLogic::new();
    let mut set: LookupSet<u32> = LookupSet::new(b"e".to_vec());
    set.extend(&mut env, vec![1, 2, 3]);
    assert!(set.contains(&mut env, &1));
    assert!(set.contains(&mut env, &2));
    assert!(set.contains(&mut env, &3));
    assert!(!set.contains(&mut env, &4));
}

#[test]
fn distinct_prefixes_do_not_alias() {
    let mut env = TestRuntimeVMLogic::new();
    let mut a: LookupSet<u32> = LookupSet::new(b"a".to_vec());
    let b: LookupSet<u32> = LookupSet::new(b"b".to_vec());
    a.insert(&mut env, 7);
    assert!(a.contains(&mut env, &7));
    assert!(!b.contains(&mut env, &7));
}

use l1x_sdk::store::index_map::IndexMap;
use l1x_sdk::{remove_from_mock_storage, storage_read, storage_write, TestRuntimeVMLogic};

fn record_key(prefix: &[u8], index: u32) -> Vec<u8> {
    let mut key = prefix.to_vec();
    key.extend_from_slice(&index.to_le_bytes());
    key
}

#[test]
fn unknown_slot_consults_storage_once() {
    let mut env = TestRuntimeVMLogic::new();
    // A record written under the cache's prefix before the cache exists.
    storage_write(&mut env, &record_key(b"c", 3), &7i32.to_le_bytes());

    let mut map: IndexMap<i32> = IndexMap::new(b"c".to_vec());
    assert_eq!(map.get(&mut env, 3), Some(&7));

    // The slot is populated now: deleting the record behind the cache's
    // back no longer changes what it serves, because a touched slot never
    // reverts to unknown within a session.
    remove_from_mock_storage(&mut env, &record_key(b"c", 3));
    assert_eq!(map.get(&mut env, 3), Some(&7));
}

#[test]
fn absent_record_populates_clean_absence() {
    let mut env = TestRuntimeVMLogic::new();
    let mut map: IndexMap<i32> = IndexMap::new(b"c".to_vec());
    assert_eq!(map.get(&mut env, 0), None);
    assert_eq!(map.get_mut(&mut env, 0), None);
}

#[test]
fn set_is_buffered_until_flush() {
    let mut env = TestRuntimeVMLogic::new();
    let mut map: IndexMap<i32> = IndexMap::new(b"c".to_vec());

    map.set(1, Some(11));
    // Not yet durable: the write lives in the dirty slot only.
    assert!(storage_read(&mut env, &record_key(b"c", 1)).is_none());
    assert_eq!(map.get(&mut env, 1), Some(&11));

    map.flush(&mut env);
    assert_eq!(
        storage_read(&mut env, &record_key(b"c", 1)).unwrap(),
        11i32.to_le_bytes().to_vec()
    );
}

#[test]
fn set_absence_flushes_as_removal() {
    let mut env = TestRuntimeVMLogic::new();
    storage_write(&mut env, &record_key(b"c", 2), &5i32.to_le_bytes());

    let mut map: IndexMap<i32> = IndexMap::new(b"c".to_vec());
    map.set(2, None);
    map.flush(&mut env);
    assert!(storage_read(&mut env, &record_key(b"c", 2)).is_none());
    assert_eq!(map.get(&mut env, 2), None);
}

#[test]
fn get_mut_dirties_conservatively() {
    let mut env = TestRuntimeVMLogic::new();
    storage_write(&mut env, &record_key(b"c", 0), &1i32.to_le_bytes());

    let mut map: IndexMap<i32> = IndexMap::new(b"c".to_vec());
    if let Some(value) = map.get_mut(&mut env, 0) {
        *value = 2;
    }
    map.flush(&mut env);
    assert_eq!(
        storage_read(&mut env, &record_key(b"c", 0)).unwrap(),
        2i32.to_le_bytes().to_vec()
    );
}

#[test]
fn flush_leaves_unrelated_keys_alone() {
    let mut env = TestRuntimeVMLogic::new();
    storage_write(&mut env, b"unrelated", b"kept");

    let mut map: IndexMap<i32> = IndexMap::new(b"c".to_vec());
    map.set(0, Some(1));
    map.flush(&mut env);
    assert_eq!(storage_read(&mut env, b"unrelated").unwrap(), b"kept");
}

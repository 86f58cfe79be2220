use l1x_sdk::{
    caller_address, clear_mock_io, contract_instance_address, contract_owner_address,
    get_mock_msgs, get_mock_output, input, msg, output, read_register, register_len,
    remove_from_mock_storage, set_mock_caller_address, set_mock_contract_instance_address,
    set_mock_contract_owner_address, set_mock_input, storage_read, storage_remove,
    storage_write, Address, TestRuntimeVMLogic, ATOMIC_OP_REGISTER, EVICTED_REGISTER,
};

#[test]
fn test_storage() {
    let mut env = TestRuntimeVMLogic::new();

    // Prepare key-value
    let key = b"key";
    let value = b"value";

    // Write to storage: the key is new, so nothing is evicted
    assert!(!storage_write(&mut env, key, value));

    // Read from storage
    let stored_value = storage_read(&mut env, key).unwrap();
    assert_eq!(stored_value, value);

    // Remove from storage
    assert!(storage_remove(&mut env, key));

    // Try to read removed key
    assert!(storage_read(&mut env, key).is_none());
}

#[test]
fn test_msg() {
    let mut env = TestRuntimeVMLogic::new();

    let message = "Test message";
    msg(&mut env, message);

    let mock_messages = get_mock_msgs(&env);
    assert_eq!(mock_messages.len(), 1);
    assert_eq!(mock_messages[0], message);
}

#[test]
fn test_input_output() {
    let mut env = TestRuntimeVMLogic::new();

    let data = vec![1, 2, 3, 4];

    set_mock_input(&mut env, data.clone());

    // Check input
    let input_data = input(&mut env).unwrap();
    assert_eq!(input_data, data);

    // Output
    output(&mut env, &data);

    // Check output
    let output_data = get_mock_output(&env);
    assert_eq!(output_data, data);

    // Clear
    clear_mock_io(&mut env);

    // Check input and output are cleared
    assert!(input(&mut env).is_none());
    assert!(get_mock_output(&env).is_empty());
}

#[test]
fn test_storage_write_and_read() {
    let mut env = TestRuntimeVMLogic::new();

    let key = vec![1, 2, 3];
    let value = vec![4, 5, 6];

    // Write to storage
    storage_write(&mut env, &key, &value);

    // Read from storage and check value
    let stored_value = storage_read(&mut env, &key).unwrap();
    assert_eq!(stored_value, value);
}

#[test]
fn test_remove_from_mock_storage() {
    let mut env = TestRuntimeVMLogic::new();

    let key = vec![1, 2, 3];
    let value = vec![4, 5, 6];

    // Write to storage and then remove
    storage_write(&mut env, &key, &value);
    remove_from_mock_storage(&mut env, &key);

    // Check value is removed
    let stored_value = storage_read(&mut env, &key);
    assert!(stored_value.is_none());
}

#[test]
fn test_contract_owner_address_and_caller_address() {
    let mut env = TestRuntimeVMLogic::new();

    let mock_owner_address = b"current_address12345".to_vec();
    let mock_caller_address = b"caller_address123456".to_vec();
    let mock_instance_address = b"instance_address3456".to_vec();

    // Set mock data
    set_mock_contract_owner_address(&mut env, mock_owner_address.clone());
    set_mock_caller_address(&mut env, mock_caller_address.clone());
    set_mock_contract_instance_address(&mut env, mock_instance_address.clone());

    // Test contract_owner_address
    assert_eq!(
        contract_owner_address(&mut env),
        Address::test_create_address(&mock_owner_address)
    );

    // Test caller_address
    assert_eq!(
        caller_address(&mut env),
        Address::test_create_address(&mock_caller_address)
    );

    assert_eq!(
        contract_instance_address(&mut env),
        Address::test_create_address(&mock_instance_address)
    );
}

#[test]
fn test_input_and_output() {
    let mut env = TestRuntimeVMLogic::new();

    let data = vec![1, 2, 3];

    // Set mock input and verify it
    set_mock_input(&mut env, data.clone());
    assert_eq!(input(&mut env).unwrap(), data);

    // Write to output
    output(&mut env, &data);

    // Verify output
    assert_eq!(get_mock_output(&env), data);
}

#[test]
fn test_clear_mock_io() {
    let mut env = TestRuntimeVMLogic::new();

    // Set some mock input/output data and a message
    set_mock_input(&mut env, vec![1, 2, 3]);
    output(&mut env, &vec![4, 5, 6]);
    msg(&mut env, "Hello, world!");

    // Clear the mock I/O data
    clear_mock_io(&mut env);

    // Verify everything was cleared
    assert!(input(&mut env).is_none());
    assert_eq!(get_mock_output(&env), vec![] as Vec<u8>);
    assert_eq!(get_mock_msgs(&env), Vec::<String>::new());
}

#[test]
fn read_register_never_populated_is_none() {
    let env = TestRuntimeVMLogic::new();
    assert!(read_register(&env, 0).is_none());
    assert!(read_register(&env, 41).is_none());
    assert!(register_len(&env, 41).is_none());
}

#[test]
fn storage_write_eviction_boolean() {
    let mut env = TestRuntimeVMLogic::new();
    let key = b"k";
    assert_eq!(storage_write(&mut env, key, b"v1"), false);
    assert_eq!(storage_write(&mut env, key, b"v2"), true);
}

#[test]
fn storage_write_fills_eviction_register() {
    let mut env = TestRuntimeVMLogic::new();
    let key = b"k";
    storage_write(&mut env, key, b"v1");
    assert!(read_register(&env, EVICTED_REGISTER).is_none());
    storage_write(&mut env, key, b"v2");
    assert_eq!(read_register(&env, EVICTED_REGISTER).unwrap(), b"v1");
}

#[test]
fn storage_read_fills_atomic_register() {
    let mut env = TestRuntimeVMLogic::new();
    storage_write(&mut env, b"key", b"value");
    let value = storage_read(&mut env, b"key").unwrap();
    assert_eq!(value, b"value");
    assert_eq!(read_register(&env, ATOMIC_OP_REGISTER).unwrap(), b"value");
    assert_eq!(
        register_len(&env, ATOMIC_OP_REGISTER),
        Some(b"value".len() as u64)
    );
}

#[test]
fn input_cleared_leaves_register_unpopulated() {
    let mut env = TestRuntimeVMLogic::new();
    set_mock_input(&mut env, vec![9, 9]);
    assert_eq!(input(&mut env).unwrap(), vec![9, 9]);
    clear_mock_io(&mut env);
    assert!(input(&mut env).is_none());
    assert!(read_register(&env, ATOMIC_OP_REGISTER).is_none());
}

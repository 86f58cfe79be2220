use l1x_sdk::{
    Account, AccountManager, AccountType, Address, BlockchainEnvironment, TestRuntimeVMApi,
    TestRuntimeVMLogic, TestUtilMockEnv, TestUtilMockEnvManager, TransferError,
    DEFAULT_TEST_RT_ENV_ID,
};

fn addr(fill: u8) -> Address {
    Address::test_create_address(&vec![fill; 20])
}

#[test]
fn account_type_as_str() {
    assert_eq!(AccountType::System.as_str(), "System");
    assert_eq!(AccountType::User.as_str(), "User");
}

#[test]
fn account_constructors() {
    let a = Account::new(addr(1));
    assert_eq!(a.balance, 0);
    assert_eq!(a.nonce, 0);
    assert_eq!(a.account_type, AccountType::User);

    let s = Account::new_system(addr(2));
    assert_eq!(s.balance, 0);
    assert_eq!(s.account_type, AccountType::System);
}

#[test]
fn transfer_moves_balance() {
    let mut from = Account::new(addr(1));
    from.balance = 100;
    let mut to = Account::new(addr(2));
    to.balance = 5;

    assert!(AccountManager::transfer(&mut from, &mut to, &40).is_ok());
    assert_eq!(from.balance, 60);
    assert_eq!(to.balance, 45);
}

#[test]
fn transfer_insufficient_balance() {
    let mut from = Account::new(addr(1));
    from.balance = 10;
    let mut to = Account::new(addr(2));

    assert_eq!(
        AccountManager::transfer(&mut from, &mut to, &40),
        Err(TransferError::InsufficientBalance)
    );
    assert_eq!(from.balance, 10);
    assert_eq!(to.balance, 0);
}

#[test]
fn transfer_overflowing_credit() {
    let mut from = Account::new(addr(1));
    from.balance = 10;
    let mut to = Account::new(addr(2));
    to.balance = u128::MAX - 5;

    assert_eq!(
        AccountManager::transfer(&mut from, &mut to, &10),
        Err(TransferError::BalanceOverflow)
    );
    // The running order debits the payer before the credit is found to
    // overflow.
    assert_eq!(from.balance, 0);
    assert_eq!(to.balance, u128::MAX - 5);
}

#[test]
fn has_sufficient_balance_boundary() {
    let mut account = Account::new(addr(1));
    account.balance = 7;
    assert!(AccountManager::has_sufficient_balance(&account, &7));
    assert!(!AccountManager::has_sufficient_balance(&account, &8));
}

#[test]
fn blockchain_environment_reports_fixed_facts() {
    let bc = BlockchainEnvironment::new();
    assert_eq!(bc.get_block_number(), 42);
    assert_eq!(bc.get_block_timestamp(), 0xff);
    let hash = bc.get_block_hash();
    assert_eq!(hash[0], 1);
    assert_eq!(hash[31], 32);
}

#[test]
fn vm_api_register_round_trip() {
    let mut env = TestRuntimeVMLogic::new();
    assert_eq!(TestRuntimeVMApi::register_len(&env, 5), u64::MAX);
    TestRuntimeVMApi::write_register(&mut env, 5, b"data");
    assert_eq!(TestRuntimeVMApi::register_len(&env, 5), 4);
    assert_eq!(TestRuntimeVMApi::read_register(&env, 5), b"data");
}

#[test]
fn vm_api_storage_codes() {
    let mut env = TestRuntimeVMLogic::new();
    assert_eq!(TestRuntimeVMApi::storage_write(&mut env, b"k", b"v1", 9), 0);
    assert_eq!(TestRuntimeVMApi::storage_write(&mut env, b"k", b"v2", 9), 1);
    assert_eq!(TestRuntimeVMApi::read_register(&env, 9), b"v1");
    assert_eq!(TestRuntimeVMApi::storage_read(&mut env, b"k", 8), 1);
    assert_eq!(TestRuntimeVMApi::read_register(&env, 8), b"v2");
    assert_eq!(TestRuntimeVMApi::storage_read(&mut env, b"absent", 8), 0);
    assert_eq!(TestRuntimeVMApi::storage_remove(&mut env, b"k", 8), 1);
    assert_eq!(TestRuntimeVMApi::storage_remove(&mut env, b"k", 8), 0);
}

#[test]
fn vm_api_block_facts() {
    let env = TestRuntimeVMLogic::new();
    assert_eq!(TestRuntimeVMApi::block_number(&env), 42u64.to_le_bytes().to_vec());
    assert_eq!(
        TestRuntimeVMApi::block_timestamp(&env),
        0xffu64.to_le_bytes().to_vec()
    );
    assert_eq!(TestRuntimeVMApi::block_hash(&env)[0], 1);
    assert_eq!(TestRuntimeVMApi::current_runtime_version(), 0);
    assert_eq!(TestRuntimeVMApi::call_contract(b"call", 3), 0);
    assert_eq!(TestRuntimeVMApi::emit_event_experimental(b"event"), 0);
}

#[test]
fn vm_api_address_balance() {
    let mut env = TestRuntimeVMLogic::new();
    let user = addr(7);
    let mut account = Account::new(user);
    account.balance = 12345;
    env.account_state.insert(user, account);
    TestRuntimeVMApi::address_balance(&mut env, &user, 6);
    assert_eq!(
        TestRuntimeVMApi::read_register(&env, 6),
        12345u128.to_le_bytes().to_vec()
    );
}

#[test]
fn vm_api_transfer_to() {
    let mut mgr = TestUtilMockEnvManager::new();
    let mock_env = TestUtilMockEnv::new(&mut mgr, DEFAULT_TEST_RT_ENV_ID);
    let instance = addr(3);
    let user = addr(4);
    mock_env.mock_env_set_contract_instance_address(&mut mgr, &instance);
    mock_env.mock_env_endow_system_account(&mut mgr, &instance, Some(1000));
    mock_env.mock_env_endow_user_account(&mut mgr, &user, Some(1));

    let mut env = TestUtilMockEnvManager::take_test_env_rt(&mut mgr, DEFAULT_TEST_RT_ENV_ID);

    // A malformed request moves nothing.
    assert_eq!(TestRuntimeVMApi::transfer_to(&mut env, b"short", &7u128.to_le_bytes()), 0);
    // A missing payee account moves nothing.
    assert_eq!(
        TestRuntimeVMApi::transfer_to(&mut env, &addr(9).to_vec(), &7u128.to_le_bytes()),
        0
    );
    // Too large an amount moves nothing.
    assert_eq!(
        TestRuntimeVMApi::transfer_to(&mut env, &user.to_vec(), &5000u128.to_le_bytes()),
        0
    );
    // A well-formed transfer moves the balance.
    assert_eq!(
        TestRuntimeVMApi::transfer_to(&mut env, &user.to_vec(), &7u128.to_le_bytes()),
        1
    );
    assert_eq!(env.account_state.get(&instance).unwrap().balance, 993);
    assert_eq!(env.account_state.get(&user).unwrap().balance, 8);
}

#[test]
fn vm_api_transfer_from_caller() {
    let mut mgr = TestUtilMockEnvManager::new();
    let mock_env = TestUtilMockEnv::new(&mut mgr, DEFAULT_TEST_RT_ENV_ID);
    let instance = addr(3);
    let caller = addr(5);
    mock_env.mock_env_set_contract_instance_address(&mut mgr, &instance);
    mock_env.mock_env_set_caller_address(&mut mgr, &caller);
    mock_env.mock_env_endow_system_account(&mut mgr, &instance, Some(10));
    mock_env.mock_env_endow_user_account(&mut mgr, &caller, None);

    let mut env = TestUtilMockEnvManager::take_test_env_rt(&mut mgr, DEFAULT_TEST_RT_ENV_ID);

    assert_eq!(TestRuntimeVMApi::transfer_from_caller(&mut env, b"bad"), 0);
    assert_eq!(TestRuntimeVMApi::transfer_from_caller(&mut env, &25u128.to_le_bytes()), 1);
    assert_eq!(env.account_state.get(&instance).unwrap().balance, 35);
    assert_eq!(
        env.account_state.get(&caller).unwrap().balance,
        10_000_000_000_000 - 25
    );
}

#[test]
fn vm_api_msg_logs() {
    let mut env = TestRuntimeVMLogic::new();
    TestRuntimeVMApi::msg(&mut env, "diagnostic");
    assert_eq!(env.messages, vec!["diagnostic".to_string()]);
}

#[test]
fn env_manager_keeps_and_serves_hosts() {
    let mut mgr = TestUtilMockEnvManager::new();
    assert!(TestUtilMockEnvManager::get_test_env_rt(&mgr, 10).is_none());
    TestUtilMockEnvManager::update_test_env_rt(&mut mgr, 10, TestRuntimeVMLogic::new());
    assert!(TestUtilMockEnvManager::get_test_env_rt(&mgr, 10).is_some());
    assert!(TestUtilMockEnvManager::get_test_env_rt(&mgr, 11).is_none());
}

#[test]
fn mock_env_sets_context_addresses() {
    let mut mgr = TestUtilMockEnvManager::new();
    let mock_env = TestUtilMockEnv::new(&mut mgr, 22);
    assert_eq!(mock_env.test_vmlogic_id, 22);
    let owner = addr(8);
    let caller = addr(9);
    mock_env.mock_env_set_contract_owner_address(&mut mgr, &owner);
    mock_env.mock_env_set_caller_address(&mut mgr, &caller);
    let held = TestUtilMockEnvManager::get_test_env_rt(&mgr, 22).unwrap();
    assert_eq!(held.contract_owner_address, owner);
    assert_eq!(held.caller_address, caller);
}

#[test]
fn mock_env_generate_user_address_is_deterministic() {
    let a = TestUtilMockEnv::mock_env_generate_user_address(b"mnemonic words");
    let b = TestUtilMockEnv::mock_env_generate_user_address(b"mnemonic words");
    let c = TestUtilMockEnv::mock_env_generate_user_address(b"other words");
    assert_eq!(a, b);
    assert_ne!(a, c);
    assert_eq!(a.to_vec().len(), 20);
}

#[test]
fn mock_env_random_addresses_have_address_shape() {
    let a = TestUtilMockEnv::mock_env_generate_random_address();
    assert_eq!(a.to_vec().len(), 20);
}

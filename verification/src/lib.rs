pub mod codec;
pub mod contract_interaction;
pub mod env;
pub mod runtime;
pub mod store;
pub mod types;

pub use contract_interaction::ContractCall;
pub use env::{
    call_contract, caller_address, clear_mock_io, contract_instance_address,
    contract_owner_address, expect_register, get_mock_msgs, get_mock_output, input, msg, output,
    read_register, register_len, remove_from_mock_storage, set_mock_caller_address,
    set_mock_contract_instance_address, set_mock_contract_owner_address, set_mock_input,
    storage_read, storage_remove, storage_write,
};
pub use runtime::account::{Account, AccountType};
pub use runtime::account_manager::{AccountManager, TransferError};
pub use runtime::blockchain_env::BlockchainEnvironment;
pub use runtime::env_manager::TestUtilMockEnvManager;
pub use runtime::mock_env::{TestUtilMockEnv, DEFAULT_TEST_RT_ENV_ID};
pub use runtime::vm_api::TestRuntimeVMApi;
pub use runtime::vm_logic::TestRuntimeVMLogic;
pub use store::{LookupMap, LookupSet, Vector};
pub use types::primitives::Address;

use vstd::prelude::*;

verus! {

/// Reserved register handle the host fills with the value evicted by a
/// storage write. Guest-chosen register ids must stay below the reserved
/// band at the top of the id space.
pub const EVICTED_REGISTER: u64 = u64::MAX - 1;

/// Reserved register handle for the result of the latest atomic host
/// operation (storage read, input, address queries).
pub const ATOMIC_OP_REGISTER: u64 = u64::MAX - 2;

} // verus!

use vstd::prelude::*;

use crate::runtime::account::{Account, AccountMap};
use crate::runtime::blockchain_env::BlockchainEnvironment;
use crate::runtime::mock_env::TestUtilMockEnv;
use crate::runtime::registers::RegisterTable;
use crate::runtime::storage_map::StorageMap;
use crate::types::primitives::Address;

verus! {

/// The protocol version the mock host reports.
pub const CURRENT_RUNTIME_VERSION: u64 = 1;

/// The whole state one simulated host carries for one guest: its register
/// table, its emulated persistent store, the context addresses, the
/// invocation input and output, the diagnostic log, the chain facts, and
/// the ledger.
#[derive(Debug)]
pub struct TestRuntimeVMLogic {
    pub runtime_version: u64,
    pub registers: RegisterTable,
    pub emu_storage: StorageMap,
    pub caller_address: Address,
    pub contract_owner_address: Address,
    pub contract_instance_address: Address,
    pub input: Option<Vec<u8>>,
    pub return_data: Vec<u8>,
    pub messages: Vec<String>,
    pub bc_env: BlockchainEnvironment,
    pub account_state: AccountMap,
}

impl Default for TestRuntimeVMLogic {
    fn default() -> (r: Self)
        ensures
            r.wf(),
            r.is_fresh(),
    {
        Self::new()
    }
}

impl TestRuntimeVMLogic {
    /// The tables are well formed, and the invocation input, when present,
    /// fits the host's length counter.
    pub open spec fn wf(&self) -> bool {
        &&& self.registers.wf()
        &&& self.emu_storage.wf()
        &&& self.account_state.wf()
        &&& match self.input {
            Some(data) => data@.len() < u64::MAX,
            None => true,
        }
    }

    /// A host that has served no call yet: empty tables, empty input and
    /// output, nothing logged.
    pub open spec fn is_fresh(&self) -> bool {
        &&& self.runtime_version == CURRENT_RUNTIME_VERSION
        &&& self.registers@ == Map::<u64, Seq<u8>>::empty()
        &&& self.emu_storage@ == Map::<Seq<u8>, Seq<u8>>::empty()
        &&& match self.input {
            Some(data) => data@.len() == 0,
            None => false,
        }
        &&& self.return_data@.len() == 0
        &&& self.messages@.len() == 0
        &&& self.account_state@ == Map::<Seq<u8>, Account>::empty()
        &&& self.bc_env.spec_block_number() == 42
        &&& self.bc_env.spec_block_timestamp() == 0xff
    }

    /// A fresh host with randomly drawn context addresses.
    pub fn new() -> (r: Self)
        ensures
            r.wf(),
            r.is_fresh(),
    {
        Self {
            runtime_version: CURRENT_RUNTIME_VERSION,
            registers: RegisterTable::new(),
            emu_storage: StorageMap::new(),
            caller_address: TestUtilMockEnv::mock_env_generate_random_address(),
            contract_owner_address: TestUtilMockEnv::mock_env_generate_random_address(),
            contract_instance_address: TestUtilMockEnv::mock_env_generate_random_address(),
            input: Some(Vec::new()),
            return_data: Vec::new(),
            messages: Vec::new(),
            bc_env: BlockchainEnvironment::default(),
            account_state: AccountMap::new(),
        }
    }
}

/// Two host states whose invocation context agrees: same protocol
/// version, same addresses, same input, same chain facts, same log and
/// same output. The data tables are spoken of separately.
pub open spec fn context_eq(a: TestRuntimeVMLogic, b: TestRuntimeVMLogic) -> bool {
    &&& a.runtime_version == b.runtime_version
    &&& a.caller_address == b.caller_address
    &&& a.contract_owner_address == b.contract_owner_address
    &&& a.contract_instance_address == b.contract_instance_address
    &&& a.input == b.input
    &&& a.bc_env == b.bc_env
    &&& a.messages == b.messages
    &&& a.return_data == b.return_data
}

/// Two host states that agree on everything but the ledger.
pub open spec fn logic_eq_but_accounts(a: TestRuntimeVMLogic, b: TestRuntimeVMLogic) -> bool {
    &&& a.runtime_version == b.runtime_version
    &&& a.registers == b.registers
    &&& a.emu_storage == b.emu_storage
    &&& a.caller_address == b.caller_address
    &&& a.contract_owner_address == b.contract_owner_address
    &&& a.contract_instance_address == b.contract_instance_address
    &&& a.input == b.input
    &&& a.return_data == b.return_data
    &&& a.messages == b.messages
    &&& a.bc_env == b.bc_env
}

} // verus!

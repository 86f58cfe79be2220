use vstd::prelude::*;

use crate::codec::{copy_bytes, le128, le64, spec_le128, spec_le64};
use crate::runtime::account_manager::AccountManager;
use crate::runtime::vm_logic::{context_eq, TestRuntimeVMLogic};
use crate::types::primitives::Address;

verus! {

/// The host contract the virtual machine exposes to the guest, served by a
/// simulated host. Each call takes the host state it acts on; the raw
/// memory addresses of the machine-level boundary become plain values here.
pub struct TestRuntimeVMApi;

impl TestRuntimeVMApi {
    /// Copies out the bytes held in register `register_id`. Reading a
    /// register nobody populated is a protocol violation, so the caller
    /// must know it is there.
    pub fn read_register(env: &TestRuntimeVMLogic, register_id: u64) -> (r: Vec<u8>)
        requires
            env.wf(),
            env.registers@.contains_key(register_id),
        ensures
            r@ == env.registers@[register_id],
    {
        match env.registers.get(register_id) {
            Some(data) => copy_bytes(data.as_slice()),
            None => vstd::pervasive::unreached(),
        }
    }

    /// The byte length of the buffer in register `register_id`, or
    /// `u64::MAX`, the sentinel for a register nobody populated.
    pub fn register_len(env: &TestRuntimeVMLogic, register_id: u64) -> (r: u64)
        requires
            env.wf(),
        ensures
            env.registers@.contains_key(register_id)
                ==> r == env.registers@[register_id].len() && r < u64::MAX,
            !env.registers@.contains_key(register_id) ==> r == u64::MAX,
    {
        match env.registers.get(register_id) {
            Some(data) => {
                proof {
                    env.registers.lemma_buffers_bounded(register_id);
                }
                data.len() as u64
            },
            None => u64::MAX,
        }
    }

    /// Fills register `register_id` with `data`.
    pub fn write_register(env: &mut TestRuntimeVMLogic, register_id: u64, data: &[u8])
        requires
            old(env).wf(),
            data@.len() < u64::MAX,
        ensures
            final(env).wf(),
            context_eq(*old(env), *final(env)),
            final(env).emu_storage == old(env).emu_storage,
            final(env).account_state == old(env).account_state,
            final(env).registers@ == old(env).registers@.insert(register_id, data@),
    {
        env.registers.set(register_id, data);
    }

    /// Upserts `value` under `key` in the emulated store. Hands back 1 and
    /// fills the eviction register with the previous value when the key was
    /// already bound, 0 when the key is new.
    pub fn storage_write(
        env: &mut TestRuntimeVMLogic,
        key: &[u8],
        value: &[u8],
        evicted_register_id: u64,
    ) -> (r: u64)
        requires
            old(env).wf(),
            value@.len() < u64::MAX,
        ensures
            final(env).wf(),
            context_eq(*old(env), *final(env)),
            final(env).account_state == old(env).account_state,
            final(env).emu_storage@ == old(env).emu_storage@.insert(key@, value@),
            old(env).emu_storage@.contains_key(key@) ==> r == 1
                && final(env).registers@ == old(env).registers@.insert(
                evicted_register_id,
                old(env).emu_storage@[key@],
            ),
            !old(env).emu_storage@.contains_key(key@) ==> r == 0
                && final(env).registers == old(env).registers,
    {
        proof {
            if old(env).emu_storage@.contains_key(key@) {
                old(env).emu_storage.lemma_values_bounded(key@);
            }
        }
        let prev = env.emu_storage.insert(key, value);
        match prev {
            Some(evicted) => {
                env.registers.set(evicted_register_id, evicted.as_slice());
                1
            },
            None => 0,
        }
    }

    /// Looks up `key` in the emulated store. Hands back 1 and fills the
    /// result register with the value on a hit, 0 on a miss.
    pub fn storage_read(env: &mut TestRuntimeVMLogic, key: &[u8], register_id: u64) -> (r: u64)
        requires
            old(env).wf(),
        ensures
            final(env).wf(),
            context_eq(*old(env), *final(env)),
            final(env).account_state == old(env).account_state,
            final(env).emu_storage == old(env).emu_storage,
            old(env).emu_storage@.contains_key(key@) ==> r == 1
                && final(env).registers@ == old(env).registers@.insert(
                register_id,
                old(env).emu_storage@[key@],
            ),
            !old(env).emu_storage@.contains_key(key@) ==> r == 0
                && *final(env) == *old(env),
    {
        let found = env.emu_storage.get(key);
        match found {
            Some(read_data) => {
                proof {
                    env.emu_storage.lemma_values_bounded(key@);
                }
                let data = copy_bytes(read_data.as_slice());
                env.registers.set(register_id, data.as_slice());
                1
            },
            None => 0,
        }
    }

    /// Deletes `key` from the emulated store. Hands back 1 when a value
    /// was bound there, 0 when the key was absent.
    pub fn storage_remove(env: &mut TestRuntimeVMLogic, key: &[u8], register_id: u64) -> (r: u64)
        requires
            old(env).wf(),
        ensures
            final(env).wf(),
            context_eq(*old(env), *final(env)),
            final(env).account_state == old(env).account_state,
            final(env).registers == old(env).registers,
            final(env).emu_storage@ == old(env).emu_storage@.remove(key@),
            r == 1 <==> old(env).emu_storage@.contains_key(key@),
            r == 1 || r == 0,
    {
        let _ = register_id;
        match env.emu_storage.remove(key) {
            Some(_) => 1,
            None => 0,
        }
    }

    /// The protocol version of this host build.
    pub fn current_runtime_version() -> (r: u64)
        ensures
            r == 0,
    {
        0u64
    }

    /// Fills the result register with the invocation input, or leaves it
    /// unpopulated when the host was given none.
    pub fn input(env: &mut TestRuntimeVMLogic, result_register_id: u64)
        requires
            old(env).wf(),
        ensures
            final(env).wf(),
            context_eq(*old(env), *final(env)),
            final(env).emu_storage == old(env).emu_storage,
            final(env).account_state == old(env).account_state,
            match old(env).input {
                Some(data) => final(env).registers@ == old(env).registers@.insert(
                    result_register_id,
                    data@,
                ),
                None => final(env).registers@ == old(env).registers@.remove(result_register_id),
            },
    {
        match &env.input {
            Some(data) => {
                let data = copy_bytes(data.as_slice());
                env.registers.set(result_register_id, data.as_slice());
            },
            None => {
                env.registers.clear(result_register_id);
            },
        }
    }

    /// Records `data` as the invocation's return data.
    pub fn output(env: &mut TestRuntimeVMLogic, data: &[u8])
        requires
            old(env).wf(),
        ensures
            final(env).wf(),
            final(env).return_data@ == data@,
            final(env).registers == old(env).registers,
            final(env).emu_storage == old(env).emu_storage,
            final(env).account_state == old(env).account_state,
            final(env).messages == old(env).messages,
            final(env).input == old(env).input,
            final(env).runtime_version == old(env).runtime_version,
            final(env).caller_address == old(env).caller_address,
            final(env).contract_owner_address == old(env).contract_owner_address,
            final(env).contract_instance_address == old(env).contract_instance_address,
            final(env).bc_env == old(env).bc_env,
    {
        env.return_data = copy_bytes(data);
    }

    /// Fills the result register with the contract owner's address bytes.
    pub fn contract_owner_address(env: &mut TestRuntimeVMLogic, register_id: u64)
        requires
            old(env).wf(),
        ensures
            final(env).wf(),
            context_eq(*old(env), *final(env)),
            final(env).emu_storage == old(env).emu_storage,
            final(env).account_state == old(env).account_state,
            final(env).registers@ == old(env).registers@.insert(
                register_id,
                old(env).contract_owner_address@,
            ),
    {
        proof {
            env.contract_owner_address.lemma_len();
        }
        let data = env.contract_owner_address.to_vec();
        env.registers.set(register_id, data.as_slice());
    }

    /// Fills the result register with the caller's address bytes.
    pub fn caller_address(env: &mut TestRuntimeVMLogic, register_id: u64)
        requires
            old(env).wf(),
        ensures
            final(env).wf(),
            context_eq(*old(env), *final(env)),
            final(env).emu_storage == old(env).emu_storage,
            final(env).account_state == old(env).account_state,
            final(env).registers@ == old(env).registers@.insert(
                register_id,
                old(env).caller_address@,
            ),
    {
        proof {
            env.caller_address.lemma_len();
        }
        let data = env.caller_address.to_vec();
        env.registers.set(register_id, data.as_slice());
    }

    /// Fills the result register with the contract instance's address
    /// bytes.
    pub fn contract_instance_address(env: &mut TestRuntimeVMLogic, register_id: u64)
        requires
            old(env).wf(),
        ensures
            final(env).wf(),
            context_eq(*old(env), *final(env)),
            final(env).emu_storage == old(env).emu_storage,
            final(env).account_state == old(env).account_state,
            final(env).registers@ == old(env).registers@.insert(
                register_id,
                old(env).contract_instance_address@,
            ),
    {
        proof {
            env.contract_instance_address.lemma_len();
        }
        let data = env.contract_instance_address.to_vec();
        env.registers.set(register_id, data.as_slice());
    }

    /// The reported block hash. The machine-level boundary copies it into
    /// a caller buffer of exactly this size; here it is handed back whole.
    pub fn block_hash(env: &TestRuntimeVMLogic) -> (r: [u8; 32])
        ensures
            r == env.bc_env.spec_block_hash(),
    {
        env.bc_env.get_block_hash()
    }

    /// The reported block number, in the little-endian bytes the boundary
    /// copies out.
    pub fn block_number(env: &TestRuntimeVMLogic) -> (r: Vec<u8>)
        ensures
            r@ == spec_le64(env.bc_env.spec_block_number()),
    {
        le64(env.bc_env.get_block_number())
    }

    /// The reported block timestamp, in the little-endian bytes the
    /// boundary copies out.
    pub fn block_timestamp(env: &TestRuntimeVMLogic) -> (r: Vec<u8>)
        ensures
            r@ == spec_le64(env.bc_env.spec_block_timestamp()),
    {
        le64(env.bc_env.get_block_timestamp())
    }

    /// Fills the result register with the little-endian balance of the
    /// account at `address`. Asking for an account the ledger does not hold
    /// is a protocol violation, so the caller must know it is there.
    pub fn address_balance(env: &mut TestRuntimeVMLogic, address: &Address, result_register_id: u64)
        requires
            old(env).wf(),
            old(env).account_state@.contains_key(address@),
        ensures
            final(env).wf(),
            context_eq(*old(env), *final(env)),
            final(env).emu_storage == old(env).emu_storage,
            final(env).account_state == old(env).account_state,
            final(env).registers@ == old(env).registers@.insert(
                result_register_id,
                spec_le128(old(env).account_state@[address@].balance),
            ),
    {
        let balance_data = match env.account_state.get(address) {
            Some(account_state) => le128(account_state.balance),
            None => vstd::pervasive::unreached(),
        };
        env.registers.set(result_register_id, balance_data.as_slice());
    }

    /// Moves balance from the contract instance's account to the account
    /// at `to_address`. Hands back 1 on success; 0, with the ledger
    /// unchanged, on a malformed address or amount, a missing account, too
    /// small a balance, or an overflowing credit.
    pub fn transfer_to(env: &mut TestRuntimeVMLogic, to_address: &[u8], amount: &[u8]) -> (r: u64)
        requires
            old(env).wf(),
        ensures
            final(env).wf(),
            context_eq(*old(env), *final(env)),
            final(env).emu_storage == old(env).emu_storage,
            final(env).registers == old(env).registers,
            spec_transfer_outcome(
                old(env).account_state@,
                final(env).account_state@,
                old(env).contract_instance_address@,
                to_address@,
                amount@,
                r,
            ),
    {
        proof {
            env.contract_instance_address.lemma_len();
        }
        if to_address.len() != 20 || amount.len() != 16 {
            return 0u64;
        }

        let to_balance_amount = vstd::bytes::u128_from_le_bytes(amount);

        let to_vec = copy_bytes(to_address);
        let to_address_value = Address::test_create_address(&to_vec);

        let instance_account = match env.account_state.get(&env.contract_instance_address) {
            Some(a) => *a,
            None => {
                return 0u64;
            },
        };
        let mut to_account = match env.account_state.get(&to_address_value) {
            Some(a) => *a,
            None => {
                return 0u64;
            },
        };

        let mut from_account = instance_account;
        match AccountManager::transfer(&mut from_account, &mut to_account, &to_balance_amount) {
            Ok(()) => {},
            Err(_) => {
                return 0u64;
            },
        }

        let instance_address = env.contract_instance_address.clone();
        env.account_state.insert(instance_address, from_account);
        env.account_state.insert(to_address_value, to_account);

        1u64
    }

    /// Moves balance from the caller's account to the contract instance's
    /// account. Hands back 1 on success; 0, with the ledger unchanged, on
    /// a malformed amount, a missing account, too small a balance, or an
    /// overflowing credit.
    pub fn transfer_from_caller(env: &mut TestRuntimeVMLogic, amount: &[u8]) -> (r: u64)
        requires
            old(env).wf(),
        ensures
            final(env).wf(),
            context_eq(*old(env), *final(env)),
            final(env).emu_storage == old(env).emu_storage,
            final(env).registers == old(env).registers,
            spec_transfer_outcome(
                old(env).account_state@,
                final(env).account_state@,
                old(env).caller_address@,
                old(env).contract_instance_address@,
                amount@,
                r,
            ),
    {
        proof {
            env.contract_instance_address.lemma_len();
            env.caller_address.lemma_len();
        }
        if amount.len() != 16 {
            return 0u64;
        }

        let to_balance_amount = vstd::bytes::u128_from_le_bytes(amount);

        if !env.account_state.contains_key(&env.contract_instance_address) {
            return 0u64;
        }

        let mut from_account = match env.account_state.get(&env.caller_address) {
            Some(a) => *a,
            None => {
                return 0u64;
            },
        };
        let mut to_account = match env.account_state.get(&env.contract_instance_address) {
            Some(a) => *a,
            None => vstd::pervasive::unreached(),
        };

        match AccountManager::transfer(&mut from_account, &mut to_account, &to_balance_amount) {
            Ok(()) => {},
            Err(_) => {
                return 0u64;
            },
        }

        let caller = env.caller_address.clone();
        let instance = env.contract_instance_address.clone();
        env.account_state.insert(caller, from_account);
        env.account_state.insert(instance, to_account);

        1u64
    }

    /// Appends a diagnostic line to the host's log.
    pub fn msg(env: &mut TestRuntimeVMLogic, message: &str)
        requires
            old(env).wf(),
        ensures
            final(env).wf(),
            final(env).messages@.len() == old(env).messages@.len() + 1,
            forall|i: int|
                0 <= i < old(env).messages@.len()
                    ==> final(env).messages@[i] == old(env).messages@[i],
            final(env).messages@.last()@ == message@,
            final(env).registers == old(env).registers,
            final(env).emu_storage == old(env).emu_storage,
            final(env).account_state == old(env).account_state,
            final(env).return_data == old(env).return_data,
            final(env).input == old(env).input,
            final(env).runtime_version == old(env).runtime_version,
            final(env).caller_address == old(env).caller_address,
            final(env).contract_owner_address == old(env).contract_owner_address,
            final(env).contract_instance_address == old(env).contract_instance_address,
            final(env).bc_env == old(env).bc_env,
    {
        env.messages.push(message.to_owned());
    }

    /// Accepts a cross-contract call and reports that no callee produced a
    /// result: this host simulates no second contract.
    pub fn call_contract(call: &[u8], result_register_id: u64) -> (r: u64)
        ensures
            r == 0,
    {
        let _ = call;
        let _ = result_register_id;
        0u64
    }

    /// Accepts an event and reports that nothing consumed it: this host
    /// keeps no event stream.
    pub fn emit_event_experimental(data: &[u8]) -> (r: u64)
        ensures
            r == 0,
    {
        let _ = data;
        0u64
    }
}

/// How one host-mediated transfer call leaves the ledger: `r` is 1 and the
/// payer at `from` is debited and the payee at `to` credited, in that
/// order of writes, exactly when the request is well formed, both accounts
/// exist, the payer can afford it and the credit fits; otherwise `r` is 0
/// and the ledger is untouched.
pub open spec fn spec_transfer_outcome(
    accounts0: Map<Seq<u8>, crate::runtime::account::Account>,
    accounts1: Map<Seq<u8>, crate::runtime::account::Account>,
    from: Seq<u8>,
    to: Seq<u8>,
    amount: Seq<u8>,
    r: u64,
) -> bool {
    if from.len() != 20 || to.len() != 20 || amount.len() != 16 {
        r == 0 && accounts1 == accounts0
    } else {
        let amt = vstd::bytes::spec_u128_from_le_bytes(amount);
        if !accounts0.contains_key(from) || !accounts0.contains_key(to) {
            r == 0 && accounts1 == accounts0
        } else {
            let from0 = accounts0[from];
            let to0 = accounts0[to];
            if from0.balance < amt || to0.balance + amt > u128::MAX {
                r == 0 && accounts1 == accounts0
            } else {
                r == 1 && accounts1 == accounts0.insert(
                    from,
                    (crate::runtime::account::Account {
                        balance: (from0.balance - amt) as u128,
                        ..from0
                    }),
                ).insert(
                    to,
                    (crate::runtime::account::Account { balance: (to0.balance + amt) as u128, ..to0 }),
                )
            }
        }
    }
}

} // verus!

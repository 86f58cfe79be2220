use vstd::prelude::*;

use crate::codec::copy_bytes;
use crate::contract_interaction::ContractCall;
use crate::runtime::vm_api::TestRuntimeVMApi;
use crate::runtime::vm_logic::{context_eq, TestRuntimeVMLogic};
use crate::types::primitives::Address;
use crate::{ATOMIC_OP_REGISTER, EVICTED_REGISTER};

verus! {

/// The byte length of the buffer in register `register_id`, or absent
/// where the host reports the "no such register" sentinel.
pub fn register_len(env: &TestRuntimeVMLogic, register_id: u64) -> (r: Option<u64>)
    requires
        env.wf(),
    ensures
        match r {
            Some(len) => env.registers@.contains_key(register_id)
                && len == env.registers@[register_id].len(),
            None => !env.registers@.contains_key(register_id),
        },
{
    let len = TestRuntimeVMApi::register_len(env, register_id);
    if len == u64::MAX {
        None
    } else {
        Some(len)
    }
}

/// The bytes held in register `register_id`, or absent where the host
/// never populated it. The length is asked first, then a buffer of exactly
/// that length is filled: the guest never guesses a register's size.
pub fn read_register(env: &TestRuntimeVMLogic, register_id: u64) -> (r: Option<Vec<u8>>)
    requires
        env.wf(),
    ensures
        match r {
            Some(data) => env.registers@.contains_key(register_id)
                && data@ == env.registers@[register_id],
            None => !env.registers@.contains_key(register_id),
        },
{
    match register_len(env, register_id) {
        Some(_) => Some(TestRuntimeVMApi::read_register(env, register_id)),
        None => None,
    }
}

/// Unwraps a register read that the host contract obliges to succeed:
/// absence there would be a protocol violation, so the caller must know
/// the value is present.
pub fn expect_register<T>(option: Option<T>) -> (r: T)
    requires
        option is Some,
    ensures
        r == option.unwrap(),
{
    match option {
        Some(value) => value,
        None => vstd::pervasive::unreached(),
    }
}

/// The invocation input the host holds, or absent where it holds none.
pub fn input(env: &mut TestRuntimeVMLogic) -> (r: Option<Vec<u8>>)
    requires
        old(env).wf(),
    ensures
        final(env).wf(),
        context_eq(*old(env), *final(env)),
        final(env).emu_storage == old(env).emu_storage,
        final(env).account_state == old(env).account_state,
        match old(env).input {
            Some(held) => final(env).registers@ == old(env).registers@.insert(
                ATOMIC_OP_REGISTER,
                held@,
            ),
            None => final(env).registers@ == old(env).registers@.remove(ATOMIC_OP_REGISTER),
        },
        match r {
            Some(data) => old(env).input matches Some(held) && data@ == held@,
            None => old(env).input is None,
        },
{
    TestRuntimeVMApi::input(env, ATOMIC_OP_REGISTER);
    read_register(env, ATOMIC_OP_REGISTER)
}

/// Hands `data` to the host as the invocation's return data.
pub fn output(env: &mut TestRuntimeVMLogic, data: &[u8])
    requires
        old(env).wf(),
    ensures
        final(env).wf(),
        final(env).return_data@ == data@,
        final(env).registers == old(env).registers,
        final(env).emu_storage == old(env).emu_storage,
        final(env).account_state == old(env).account_state,
        final(env).messages == old(env).messages,
        final(env).input == old(env).input,
        final(env).runtime_version == old(env).runtime_version,
        final(env).caller_address == old(env).caller_address,
        final(env).contract_owner_address == old(env).contract_owner_address,
        final(env).contract_instance_address == old(env).contract_instance_address,
        final(env).bc_env == old(env).bc_env,
{
    TestRuntimeVMApi::output(env, data);
}

/// Hands a diagnostic line to the host.
pub fn msg(env: &mut TestRuntimeVMLogic, message: &str)
    requires
        old(env).wf(),
    ensures
        final(env).wf(),
        final(env).messages@.len() == old(env).messages@.len() + 1,
        forall|i: int|
            0 <= i < old(env).messages@.len() ==> final(env).messages@[i] == old(env).messages@[i],
        final(env).messages@.last()@ == message@,
        final(env).registers == old(env).registers,
        final(env).emu_storage == old(env).emu_storage,
        final(env).account_state == old(env).account_state,
        final(env).return_data == old(env).return_data,
        final(env).input == old(env).input,
        final(env).runtime_version == old(env).runtime_version,
        final(env).caller_address == old(env).caller_address,
        final(env).contract_owner_address == old(env).contract_owner_address,
        final(env).contract_instance_address == old(env).contract_instance_address,
        final(env).bc_env == old(env).bc_env,
{
    TestRuntimeVMApi::msg(env, message);
}

/// Unconditionally upserts `value` under `key` in the host's store. True
/// exactly when a prior value was evicted; the host then also fills the
/// reserved eviction register with that prior value, which this layer does
/// not surface.
pub fn storage_write(env: &mut TestRuntimeVMLogic, key: &[u8], value: &[u8]) -> (r: bool)
    requires
        old(env).wf(),
        value@.len() < u64::MAX,
    ensures
        final(env).wf(),
        context_eq(*old(env), *final(env)),
        final(env).account_state == old(env).account_state,
        final(env).emu_storage@ == old(env).emu_storage@.insert(key@, value@),
        r == old(env).emu_storage@.contains_key(key@),
        r ==> final(env).registers@ == old(env).registers@.insert(
            EVICTED_REGISTER,
            old(env).emu_storage@[key@],
        ),
        !r ==> final(env).registers == old(env).registers,
{
    let code = TestRuntimeVMApi::storage_write(env, key, value, EVICTED_REGISTER);
    if code == 0 {
        false
    } else if code == 1 {
        true
    } else {
        vstd::pervasive::unreached()
    }
}

/// Deletes `key` from the host's store. True exactly when a value existed
/// and was deleted.
pub fn storage_remove(env: &mut TestRuntimeVMLogic, key: &[u8]) -> (r: bool)
    requires
        old(env).wf(),
    ensures
        final(env).wf(),
        context_eq(*old(env), *final(env)),
        final(env).account_state == old(env).account_state,
        final(env).registers == old(env).registers,
        final(env).emu_storage@ == old(env).emu_storage@.remove(key@),
        r == old(env).emu_storage@.contains_key(key@),
{
    let code = TestRuntimeVMApi::storage_remove(env, key, EVICTED_REGISTER);
    if code == 0 {
        false
    } else if code == 1 {
        true
    } else {
        vstd::pervasive::unreached()
    }
}

/// The value under `key` in the host's store, or absent on a miss. On a
/// hit the host fills the reserved atomic-operation register and the bytes
/// come back through the register protocol.
pub fn storage_read(env: &mut TestRuntimeVMLogic, key: &[u8]) -> (r: Option<Vec<u8>>)
    requires
        old(env).wf(),
    ensures
        final(env).wf(),
        context_eq(*old(env), *final(env)),
        final(env).account_state == old(env).account_state,
        final(env).emu_storage == old(env).emu_storage,
        match r {
            Some(data) => old(env).emu_storage@.contains_key(key@)
                && data@ == old(env).emu_storage@[key@]
                && final(env).registers@ == old(env).registers@.insert(
                ATOMIC_OP_REGISTER,
                old(env).emu_storage@[key@],
            ),
            None => !old(env).emu_storage@.contains_key(key@) && *final(env) == *old(env),
        },
{
    let code = TestRuntimeVMApi::storage_read(env, key, ATOMIC_OP_REGISTER);
    if code == 0 {
        None
    } else if code == 1 {
        Some(expect_register(read_register(env, ATOMIC_OP_REGISTER)))
    } else {
        vstd::pervasive::unreached()
    }
}

/// The contract owner's address, fetched through the reserved
/// atomic-operation register. The host contract obliges it to be present
/// and twenty bytes long.
pub fn contract_owner_address(env: &mut TestRuntimeVMLogic) -> (r: Address)
    requires
        old(env).wf(),
    ensures
        final(env).wf(),
        context_eq(*old(env), *final(env)),
        final(env).emu_storage == old(env).emu_storage,
        final(env).account_state == old(env).account_state,
        final(env).registers@ == old(env).registers@.insert(
            ATOMIC_OP_REGISTER,
            old(env).contract_owner_address@,
        ),
        r == old(env).contract_owner_address,
{
    TestRuntimeVMApi::contract_owner_address(env, ATOMIC_OP_REGISTER);
    let bytes = expect_register(read_register(env, ATOMIC_OP_REGISTER));
    proof {
        old(env).contract_owner_address.lemma_len();
    }
    let r = Address::test_create_address(&bytes);
    proof {
        Address::lemma_view_injective(r, old(env).contract_owner_address);
    }
    r
}

/// The caller's address, fetched through the reserved atomic-operation
/// register.
pub fn caller_address(env: &mut TestRuntimeVMLogic) -> (r: Address)
    requires
        old(env).wf(),
    ensures
        final(env).wf(),
        context_eq(*old(env), *final(env)),
        final(env).emu_storage == old(env).emu_storage,
        final(env).account_state == old(env).account_state,
        final(env).registers@ == old(env).registers@.insert(
            ATOMIC_OP_REGISTER,
            old(env).caller_address@,
        ),
        r == old(env).caller_address,
{
    TestRuntimeVMApi::caller_address(env, ATOMIC_OP_REGISTER);
    let bytes = expect_register(read_register(env, ATOMIC_OP_REGISTER));
    proof {
        old(env).caller_address.lemma_len();
    }
    let r = Address::test_create_address(&bytes);
    proof {
        Address::lemma_view_injective(r, old(env).caller_address);
    }
    r
}

/// The contract instance's address, fetched through the reserved
/// atomic-operation register.
pub fn contract_instance_address(env: &mut TestRuntimeVMLogic) -> (r: Address)
    requires
        old(env).wf(),
    ensures
        final(env).wf(),
        context_eq(*old(env), *final(env)),
        final(env).emu_storage == old(env).emu_storage,
        final(env).account_state == old(env).account_state,
        final(env).registers@ == old(env).registers@.insert(
            ATOMIC_OP_REGISTER,
            old(env).contract_instance_address@,
        ),
        r == old(env).contract_instance_address,
{
    TestRuntimeVMApi::contract_instance_address(env, ATOMIC_OP_REGISTER);
    let bytes = expect_register(read_register(env, ATOMIC_OP_REGISTER));
    proof {
        old(env).contract_instance_address.lemma_len();
    }
    let r = Address::test_create_address(&bytes);
    proof {
        Address::lemma_view_injective(r, old(env).contract_instance_address);
    }
    r
}

/// Hands a serialized cross-contract call to the host. This host simulates
/// no second contract, so no callee result ever comes back.
pub fn call_contract(call: &ContractCall) -> (r: Option<Vec<u8>>)
    requires
        vstd::utf8::encode_utf8(call.method_name@).len() <= u32::MAX,
        call.args@.len() <= u32::MAX,
    ensures
        r is None,
{
    let call_bytes = call.to_bytes();
    let code = TestRuntimeVMApi::call_contract(call_bytes.as_slice(), ATOMIC_OP_REGISTER);
    if code == 0 {
        None
    } else {
        vstd::pervasive::unreached()
    }
}

/// Replaces the invocation input the host holds.
pub fn set_mock_input(env: &mut TestRuntimeVMLogic, data: Vec<u8>)
    requires
        old(env).wf(),
        data@.len() < u64::MAX,
    ensures
        final(env).wf(),
        final(env).input matches Some(held) && held@ == data@,
        *final(env) == (TestRuntimeVMLogic { input: final(env).input, ..*old(env) }),
{
    env.input = Some(data);
}

/// The return data the host holds.
pub fn get_mock_output(env: &TestRuntimeVMLogic) -> (r: Vec<u8>)
    ensures
        r@ == env.return_data@,
{
    copy_bytes(env.return_data.as_slice())
}

/// The diagnostic lines the host holds, oldest first.
pub fn get_mock_msgs(env: &TestRuntimeVMLogic) -> (r: Vec<String>)
    ensures
        r@.len() == env.messages@.len(),
        forall|i: int| 0 <= i < r@.len() ==> (#[trigger] r@[i])@ == env.messages@[i]@,
{
    let mut out: Vec<String> = Vec::new();
    let n = env.messages.len();
    let mut i: usize = 0;
    while i < n
        invariant
            n == env.messages@.len(),
            i <= n,
            out@.len() == i,
            forall|j: int| 0 <= j < i ==> (#[trigger] out@[j])@ == env.messages@[j]@,
        decreases n - i,
    {
        out.push(env.messages[i].clone());
        i = i + 1;
    }
    out
}

/// Clears the invocation input, the return data and the diagnostic log.
pub fn clear_mock_io(env: &mut TestRuntimeVMLogic)
    requires
        old(env).wf(),
    ensures
        final(env).wf(),
        final(env).input is None,
        final(env).return_data@ == Seq::<u8>::empty(),
        final(env).messages@ == Seq::<String>::empty(),
        final(env).registers == old(env).registers,
        final(env).emu_storage == old(env).emu_storage,
        final(env).account_state == old(env).account_state,
        final(env).runtime_version == old(env).runtime_version,
        final(env).caller_address == old(env).caller_address,
        final(env).contract_owner_address == old(env).contract_owner_address,
        final(env).contract_instance_address == old(env).contract_instance_address,
        final(env).bc_env == old(env).bc_env,
{
    env.input = None;
    env.return_data = Vec::new();
    env.messages = Vec::new();
}

/// Deletes `key` from the host's store directly, without the register
/// protocol.
pub fn remove_from_mock_storage(env: &mut TestRuntimeVMLogic, key: &[u8]) -> (r: bool)
    requires
        old(env).wf(),
    ensures
        final(env).wf(),
        context_eq(*old(env), *final(env)),
        final(env).account_state == old(env).account_state,
        final(env).registers == old(env).registers,
        final(env).emu_storage@ == old(env).emu_storage@.remove(key@),
        r == old(env).emu_storage@.contains_key(key@),
{
    match env.emu_storage.remove(key) {
        Some(_) => true,
        None => false,
    }
}

/// Sets the contract owner address the host reports, from its twenty raw
/// bytes.
pub fn set_mock_contract_owner_address(env: &mut TestRuntimeVMLogic, owner_address: Vec<u8>)
    requires
        old(env).wf(),
        owner_address@.len() == 20,
    ensures
        final(env).wf(),
        final(env).contract_owner_address@ == owner_address@,
        *final(env) == (TestRuntimeVMLogic {
            contract_owner_address: final(env).contract_owner_address,
            ..*old(env)
        }),
{
    env.contract_owner_address = Address::test_create_address(&owner_address);
}

/// Sets the caller address the host reports, from its twenty raw bytes.
pub fn set_mock_caller_address(env: &mut TestRuntimeVMLogic, caller_address: Vec<u8>)
    requires
        old(env).wf(),
        caller_address@.len() == 20,
    ensures
        final(env).wf(),
        final(env).caller_address@ == caller_address@,
        *final(env) == (TestRuntimeVMLogic { caller_address: final(env).caller_address, ..*old(env) }),
{
    env.caller_address = Address::test_create_address(&caller_address);
}

/// Sets the contract instance address the host reports, from its twenty
/// raw bytes.
pub fn set_mock_contract_instance_address(
    env: &mut TestRuntimeVMLogic,
    contract_instance_address: Vec<u8>,
)
    requires
        old(env).wf(),
        contract_instance_address@.len() == 20,
    ensures
        final(env).wf(),
        final(env).contract_instance_address@ == contract_instance_address@,
        *final(env) == (TestRuntimeVMLogic {
            contract_instance_address: final(env).contract_instance_address,
            ..*old(env)
        }),
{
    env.contract_instance_address = Address::test_create_address(&contract_instance_address);
}

} // verus!

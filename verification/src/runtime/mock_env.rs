use vstd::prelude::*;

use crate::runtime::account::{Account, AccountType};
use crate::runtime::env_manager::TestUtilMockEnvManager;
use crate::runtime::vm_logic::{logic_eq_but_accounts, TestRuntimeVMLogic};
use crate::types::primitives::{Address, Balance};

verus! {

/// The identifier of the simulated host that the helpers address when no
/// other is named.
pub const DEFAULT_TEST_RT_ENV_ID: usize = 10;

/// The balance a newly endowed account receives when none is named.
pub const DEFAULT_USER_ACCOUNT_BALANCE: Balance = 10_000_000_000_000;

/// The SHA-256 digest of a byte string.
pub uninterp spec fn sha256_of(data: Seq<u8>) -> Seq<u8>;

/// Relies on sha2::Sha256 through the Digest trait: the digest is 32 bytes
/// and a function of the input bytes alone.
#[verifier::external_body]
fn sha256_digest(data: &[u8]) -> (r: Vec<u8>)
    ensures
        r@ == sha256_of(data@),
        r@.len() == 32,
{
    let mut hasher = <sha2::Sha256 as sha2::Digest>::new();
    sha2::Digest::update(&mut hasher, data);
    <sha2::Sha256 as sha2::Digest>::finalize(hasher).to_vec()
}

/// Relies on rand::thread_rng and rand::Rng::fill to draw bytes; the
/// result depends on the generator's state, so nothing is promised of it.
#[verifier::external_body]
fn random_bytes_32() -> (r: [u8; 32]) {
    let mut bytes = [0u8; 32];
    rand::Rng::fill(&mut rand::thread_rng(), &mut bytes[..]);
    bytes
}

/// A handle on one simulated host kept by the environment manager,
/// addressed by its identifier.
#[derive(Debug, Clone)]
pub struct TestUtilMockEnv {
    pub test_vmlogic_id: usize,
}

impl Default for TestUtilMockEnv {
    fn default() -> (r: Self)
        ensures
            r.test_vmlogic_id == DEFAULT_TEST_RT_ENV_ID,
    {
        Self { test_vmlogic_id: DEFAULT_TEST_RT_ENV_ID }
    }
}

impl TestUtilMockEnv {
    /// Registers a fresh simulated host under `test_vmlogic_id` and hands
    /// back the handle on it.
    pub fn new(mgr: &mut TestUtilMockEnvManager, test_vmlogic_id: usize) -> (r: Self)
        requires
            old(mgr).wf(),
        ensures
            final(mgr).wf(),
            r.test_vmlogic_id == test_vmlogic_id,
            final(mgr)@.dom() == old(mgr)@.dom().insert(test_vmlogic_id),
            forall|k: usize|
                old(mgr)@.contains_key(k) && k != test_vmlogic_id
                    ==> final(mgr)@[k] == old(mgr)@[k],
            final(mgr)@[test_vmlogic_id].wf(),
            final(mgr)@[test_vmlogic_id].is_fresh(),
    {
        TestUtilMockEnvManager::update_test_env_rt(
            mgr,
            test_vmlogic_id,
            TestRuntimeVMLogic::default(),
        );
        proof {
            assert(final(mgr)@.dom() =~= old(mgr)@.dom().insert(test_vmlogic_id));
        }
        Self { test_vmlogic_id }
    }

    /// Twenty address bytes drawn from a random seed: the first twenty
    /// bytes of the SHA-256 digest of thirty-two random bytes.
    pub fn mock_env_generate_random_address() -> (r: Address)
        ensures
            r@.len() == 20,
    {
        let random_bytes = random_bytes_32();
        let digest = sha256_digest(random_bytes.as_slice());
        address_from_digest(&digest)
    }

    /// The deterministic address of a user named by a mnemonic seed: the
    /// first twenty bytes of the SHA-256 digest of the seed.
    pub fn mock_env_generate_user_address(user_mnemonics: &[u8]) -> (r: Address)
        ensures
            r@ == sha256_of(user_mnemonics@).take(20),
    {
        let digest = sha256_digest(user_mnemonics);
        address_from_digest(&digest)
    }

    /// Sets the caller address the host at this handle reports.
    pub fn mock_env_set_caller_address(
        &self,
        mgr: &mut TestUtilMockEnvManager,
        caller_address: &Address,
    )
        requires
            old(mgr).wf(),
            old(mgr)@.contains_key(self.test_vmlogic_id),
        ensures
            final(mgr).wf(),
            final(mgr)@ == old(mgr)@.insert(
                self.test_vmlogic_id,
                (TestRuntimeVMLogic {
                    caller_address: *caller_address,
                    ..old(mgr)@[self.test_vmlogic_id]
                }),
            ),
    {
        let mut rt_vmlogic = TestUtilMockEnvManager::take_test_env_rt(mgr, self.test_vmlogic_id);
        rt_vmlogic.caller_address = caller_address.clone();
        TestUtilMockEnvManager::update_test_env_rt(mgr, self.test_vmlogic_id, rt_vmlogic);
        proof {
            assert(final(mgr)@ =~= old(mgr)@.insert(
                self.test_vmlogic_id,
                (TestRuntimeVMLogic {
                    caller_address: *caller_address,
                    ..old(mgr)@[self.test_vmlogic_id]
                }),
            ));
        }
    }

    /// Sets the contract owner address the host at this handle reports.
    pub fn mock_env_set_contract_owner_address(
        &self,
        mgr: &mut TestUtilMockEnvManager,
        contract_owner_address: &Address,
    )
        requires
            old(mgr).wf(),
            old(mgr)@.contains_key(self.test_vmlogic_id),
        ensures
            final(mgr).wf(),
            final(mgr)@ == old(mgr)@.insert(
                self.test_vmlogic_id,
                (TestRuntimeVMLogic {
                    contract_owner_address: *contract_owner_address,
                    ..old(mgr)@[self.test_vmlogic_id]
                }),
            ),
    {
        let mut rt_vmlogic = TestUtilMockEnvManager::take_test_env_rt(mgr, self.test_vmlogic_id);
        rt_vmlogic.contract_owner_address = contract_owner_address.clone();
        TestUtilMockEnvManager::update_test_env_rt(mgr, self.test_vmlogic_id, rt_vmlogic);
        proof {
            assert(final(mgr)@ =~= old(mgr)@.insert(
                self.test_vmlogic_id,
                (TestRuntimeVMLogic {
                    contract_owner_address: *contract_owner_address,
                    ..old(mgr)@[self.test_vmlogic_id]
                }),
            ));
        }
    }

    /// Sets the contract instance address the host at this handle reports.
    pub fn mock_env_set_contract_instance_address(
        &self,
        mgr: &mut TestUtilMockEnvManager,
        contract_instance_address: &Address,
    )
        requires
            old(mgr).wf(),
            old(mgr)@.contains_key(self.test_vmlogic_id),
        ensures
            final(mgr).wf(),
            final(mgr)@ == old(mgr)@.insert(
                self.test_vmlogic_id,
                (TestRuntimeVMLogic {
                    contract_instance_address: *contract_instance_address,
                    ..old(mgr)@[self.test_vmlogic_id]
                }),
            ),
    {
        let mut rt_vmlogic = TestUtilMockEnvManager::take_test_env_rt(mgr, self.test_vmlogic_id);
        rt_vmlogic.contract_instance_address = contract_instance_address.clone();
        TestUtilMockEnvManager::update_test_env_rt(mgr, self.test_vmlogic_id, rt_vmlogic);
        proof {
            assert(final(mgr)@ =~= old(mgr)@.insert(
                self.test_vmlogic_id,
                (TestRuntimeVMLogic {
                    contract_instance_address: *contract_instance_address,
                    ..old(mgr)@[self.test_vmlogic_id]
                }),
            ));
        }
    }

    /// Endows a user account at `user_address` with `balance`, or with the
    /// default endowment when none is named.
    pub fn mock_env_endow_user_account(
        &self,
        mgr: &mut TestUtilMockEnvManager,
        user_address: &Address,
        balance: Option<Balance>,
    )
        requires
            old(mgr).wf(),
            old(mgr)@.contains_key(self.test_vmlogic_id),
        ensures
            final(mgr).wf(),
            final(mgr)@.dom() == old(mgr)@.dom(),
            forall|k: usize|
                #[trigger] old(mgr)@.contains_key(k) && k != self.test_vmlogic_id
                    ==> final(mgr)@[k] == old(mgr)@[k],
            ({
                let l0 = old(mgr)@[self.test_vmlogic_id];
                let l1 = final(mgr)@[self.test_vmlogic_id];
                &&& logic_eq_but_accounts(l0, l1)
                &&& l1.account_state@ == l0.account_state@.insert(
                    user_address@,
                    (Account {
                        address: *user_address,
                        balance: (match balance {
                            Some(b) => b,
                            None => DEFAULT_USER_ACCOUNT_BALANCE,
                        }),
                        nonce: 0,
                        account_type: AccountType::User,
                    }),
                )
            }),
    {
        let mut rt_vmlogic = TestUtilMockEnvManager::take_test_env_rt(mgr, self.test_vmlogic_id);

        let mut user_account = Account::new(user_address.clone());
        user_account.balance = match balance {
            Some(b) => b,
            None => DEFAULT_USER_ACCOUNT_BALANCE,
        };
        rt_vmlogic.account_state.insert(user_address.clone(), user_account);

        TestUtilMockEnvManager::update_test_env_rt(mgr, self.test_vmlogic_id, rt_vmlogic);
        proof {
            assert(final(mgr)@.dom() =~= old(mgr)@.dom());
        }
    }

    /// Endows a system account at `system_address` with `balance`, or with
    /// the default endowment when none is named.
    pub fn mock_env_endow_system_account(
        &self,
        mgr: &mut TestUtilMockEnvManager,
        system_address: &Address,
        balance: Option<Balance>,
    )
        requires
            old(mgr).wf(),
            old(mgr)@.contains_key(self.test_vmlogic_id),
        ensures
            final(mgr).wf(),
            final(mgr)@.dom() == old(mgr)@.dom(),
            forall|k: usize|
                #[trigger] old(mgr)@.contains_key(k) && k != self.test_vmlogic_id
                    ==> final(mgr)@[k] == old(mgr)@[k],
            ({
                let l0 = old(mgr)@[self.test_vmlogic_id];
                let l1 = final(mgr)@[self.test_vmlogic_id];
                &&& logic_eq_but_accounts(l0, l1)
                &&& l1.account_state@ == l0.account_state@.insert(
                    system_address@,
                    (Account {
                        address: *system_address,
                        balance: (match balance {
                            Some(b) => b,
                            None => DEFAULT_USER_ACCOUNT_BALANCE,
                        }),
                        nonce: 0,
                        account_type: AccountType::System,
                    }),
                )
            }),
    {
        let mut rt_vmlogic = TestUtilMockEnvManager::take_test_env_rt(mgr, self.test_vmlogic_id);

        let mut system_account = Account::new_system(system_address.clone());
        system_account.balance = match balance {
            Some(b) => b,
            None => DEFAULT_USER_ACCOUNT_BALANCE,
        };
        rt_vmlogic.account_state.insert(system_address.clone(), system_account);

        TestUtilMockEnvManager::update_test_env_rt(mgr, self.test_vmlogic_id, rt_vmlogic);
        proof {
            assert(final(mgr)@.dom() =~= old(mgr)@.dom());
        }
    }
}

/// The first twenty bytes of a 32-byte digest, as an address.
fn address_from_digest(digest: &Vec<u8>) -> (r: Address)
    requires
        digest@.len() == 32,
    ensures
        r@ == digest@.take(20),
{
    let mut bytes = [0u8; 20];
    let mut i: usize = 0;
    while i < 20
        invariant
            digest@.len() == 32,
            i <= 20,
            bytes@.len() == 20,
            forall|j: int| 0 <= j < i ==> bytes@[j] == digest@[j],
        decreases 20 - i,
    {
        bytes[i] = digest[i];
        i = i + 1;
    }
    proof {
        assert(bytes@ =~= digest@.take(20));
    }
    Address::from_array(bytes)
}

} // verus!

use vstd::prelude::*;

use crate::runtime::account::Account;
use crate::types::primitives::Balance;

verus! {

/// Why a transfer between two accounts was refused.
#[derive(Debug, Clone, Copy, PartialEq, Eq, Structural)]
pub enum TransferError {
    /// The paying account holds less than the amount.
    InsufficientBalance,
    /// Crediting the amount would overflow the receiving balance.
    BalanceOverflow,
}

/// Moves balance between ledger accounts.
pub struct AccountManager;

impl AccountManager {
    /// Debits `amount` from `from_account` and credits it to `to_account`.
    /// Refused without any change when the payer holds too little; refused
    /// with the payer already debited when crediting would overflow, as the
    /// running order of the two halves dictates.
    pub fn transfer(
        from_account: &mut Account,
        to_account: &mut Account,
        amount: &Balance,
    ) -> (r: Result<(), TransferError>)
        ensures
            match r {
                Ok(()) => {
                    &&& old(from_account).balance >= *amount
                    &&& old(to_account).balance + *amount <= u128::MAX
                    &&& final(from_account).balance == old(from_account).balance - *amount
                    &&& final(to_account).balance == old(to_account).balance + *amount
                },
                Err(TransferError::InsufficientBalance) => {
                    &&& old(from_account).balance < *amount
                    &&& *final(from_account) == *old(from_account)
                    &&& *final(to_account) == *old(to_account)
                },
                Err(TransferError::BalanceOverflow) => {
                    &&& old(from_account).balance >= *amount
                    &&& old(to_account).balance + *amount > u128::MAX
                    &&& final(from_account).balance == old(from_account).balance - *amount
                    &&& *final(to_account) == *old(to_account)
                },
            },
            final(from_account).address == old(from_account).address,
            final(from_account).nonce == old(from_account).nonce,
            final(from_account).account_type == old(from_account).account_type,
            final(to_account).address == old(to_account).address,
            final(to_account).nonce == old(to_account).nonce,
            final(to_account).account_type == old(to_account).account_type,
    {
        if !Self::has_sufficient_balance(from_account, amount) {
            return Err(TransferError::InsufficientBalance);
        }

        let account_balance = from_account.balance - *amount;
        from_account.balance = account_balance;

        if to_account.balance > u128::MAX - *amount {
            return Err(TransferError::BalanceOverflow);
        }
        let to_account_balance = to_account.balance + *amount;
        to_account.balance = to_account_balance;

        Ok(())
    }

    /// Whether `from_account` holds at least `amount`.
    pub fn has_sufficient_balance(from_account: &Account, amount: &Balance) -> (r: bool)
        ensures
            r == (from_account.balance >= *amount),
    {
        from_account.balance >= *amount
    }
}

} // verus!

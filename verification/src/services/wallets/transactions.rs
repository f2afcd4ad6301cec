//! The transfer that is guarded by a seed, and the record it works on, which
//! holds a balance and nothing else.

use crate::keys::AccountId;
use vstd::prelude::*;

verus! {

/// Wallet struct used to persist data within the service.
#[derive(Clone, Copy, Debug, PartialEq, Eq, Structural)]
pub struct Wallet {
    /// Current balance.
    pub balance: u64,
}

/// Additional methods for managing balance of the wallet in an immutable fashion.
impl Wallet {
    /// A wallet with the given balance.
    pub fn new(balance: u64) -> (wallet: Wallet)
        ensures
            wallet.balance == balance,
    {
        Wallet { balance }
    }

    /// Current balance.
    pub fn balance(&self) -> (balance: u64)
        ensures
            balance == self.balance,
    {
        self.balance
    }

    /// Returns a copy of this wallet with the balance increased by the specified amount.
    pub fn increase(self, amount: u64) -> (wallet: Wallet)
        requires
            self.balance + amount <= u64::MAX,
        ensures
            wallet.balance == self.balance + amount,
    {
        let balance = self.balance + amount;
        Wallet { balance }
    }

    /// Returns a copy of this wallet with the balance decreased by the specified amount.
    pub fn decrease(self, amount: u64) -> (wallet: Wallet)
        requires
            self.balance >= amount,
        ensures
            wallet.balance == self.balance - amount,
    {
        let balance = self.balance - amount;
        Wallet { balance }
    }
}

/// Transaction type for transferring tokens between two wallets, told apart
/// from others of the same content by its seed.
#[derive(Clone, Copy, Debug, PartialEq, Eq)]
pub struct TxTransfer {
    /// Public key of the sender.
    pub from: AccountId,
    /// Public key of the receiver.
    pub to: AccountId,
    /// Number of tokens to transfer from sender's account to receiver's account.
    pub amount: u64,
    /// Auxiliary number to guarantee non-idempotence of transactions.
    pub seed: u64,
}

impl TxTransfer {
    /// A transfer of `amount` tokens from `from` to `to`.
    pub fn new(from: &AccountId, to: &AccountId, amount: u64, seed: u64) -> (tx: TxTransfer)
        ensures
            tx.from == *from,
            tx.to == *to,
            tx.amount == amount,
            tx.seed == seed,
    {
        TxTransfer { from: *from, to: *to, amount, seed }
    }

    /// Checks if the sender is not the receiver, and takes into account
    /// whether the sender's signature over the message was found correct.
    pub fn verify(&self, signature_is_valid: bool) -> (accepted: bool)
        ensures
            accepted == (self.from@ != self.to@ && signature_is_valid),
            self.from@ == self.to@ ==> !accepted,
    {
        !self.from.same(&self.to) && signature_is_valid
    }
}

} // verus!

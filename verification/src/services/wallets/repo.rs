//! Account records and the repository that reaches the table they are kept in.

use crate::ledger::Ledger;
use vstd::prelude::*;

verus! {

/// Balance of one account and the number of transfers that have touched it.
///
/// A record is a value: a change makes a new record, which replaces the
/// stored one.
#[derive(Clone, Copy, Debug, PartialEq, Eq, Structural)]
pub struct Wallet {
    /// Total number of transfers applied to this account.
    pub nonce: u64,
    /// Current balance.
    pub balance: u64,
}

impl Wallet {
    /// The record after `amount` tokens have arrived.
    pub open spec fn increased(self, amount: u64) -> Wallet {
        Wallet { nonce: (self.nonce + 1) as u64, balance: (self.balance + amount) as u64 }
    }

    /// The record after `amount` tokens have left.
    pub open spec fn decreased(self, amount: u64) -> Wallet {
        Wallet { nonce: (self.nonce + 1) as u64, balance: (self.balance - amount) as u64 }
    }

    /// Whether `amount` tokens can arrive without the balance or the nonce
    /// leaving the range of their type.
    pub open spec fn can_increase(self, amount: u64) -> bool {
        self.balance + amount <= u64::MAX && self.nonce < u64::MAX
    }

    /// Whether `amount` tokens can leave: the balance covers them and the
    /// nonce can still grow.
    pub open spec fn can_decrease(self, amount: u64) -> bool {
        self.balance >= amount && self.nonce < u64::MAX
    }

    /// A record with the given nonce and balance.
    pub fn new(nonce: u64, balance: u64) -> (wallet: Wallet)
        ensures
            wallet == (Wallet { nonce, balance }),
    {
        Wallet { nonce, balance }
    }

    /// Total number of transfers applied to this account.
    pub fn nonce(&self) -> (nonce: u64)
        ensures
            nonce == self.nonce,
    {
        self.nonce
    }

    /// Current balance.
    pub fn balance(&self) -> (balance: u64)
        ensures
            balance == self.balance,
    {
        self.balance
    }

    /// Returns a copy of this wallet with the balance increased by the
    /// specified amount and the nonce advanced by one.
    pub fn increase(self, amount: u64) -> (wallet: Wallet)
        requires
            self.can_increase(amount),
        ensures
            wallet == self.increased(amount),
            wallet.balance == self.balance + amount,
            wallet.nonce == self.nonce + 1,
    {
        let balance = self.balance + amount;
        Wallet { nonce: self.nonce + 1, balance }
    }

    /// Returns a copy of this wallet with the balance decreased by the
    /// specified amount and the nonce advanced by one.
    pub fn decrease(self, amount: u64) -> (wallet: Wallet)
        requires
            self.can_decrease(amount),
        ensures
            wallet == self.decreased(amount),
            wallet.balance == self.balance - amount,
            wallet.nonce == self.nonce + 1,
    {
        let balance = self.balance - amount;
        Wallet { nonce: self.nonce + 1, balance }
    }
}

impl Default for Wallet {
    /// The record of an account that nothing has touched yet.
    fn default() -> (wallet: Wallet)
        ensures
            wallet == (Wallet { nonce: 0, balance: 0 }),
    {
        Wallet { nonce: 0, balance: 0 }
    }
}

/// Repo for manipulating wallets data.
///
/// `T` is the access that the repo was given to the table: `&Ledger` reads,
/// `&mut Ledger` reads and writes.
pub struct WalletsRepo<T> {
    /// The access to the table.
    pub view: T,
}

impl<T> WalletsRepo<T> {
    /// Creates a new repo over the given access to the table.
    pub fn new(view: T) -> (repo: WalletsRepo<T>)
        ensures
            repo.view == view,
    {
        WalletsRepo { view }
    }
}

/// Readonly methods for WalletsRepo
impl<'a> WalletsRepo<&'a Ledger<Wallet>> {
    /// Gets a read-only view on the table
    pub fn as_read_only(&self) -> (table: &Ledger<Wallet>)
        ensures
            table == self.view,
    {
        self.view
    }
}

/// Mutating methods for WalletsRepo
impl<'a> WalletsRepo<&'a mut Ledger<Wallet>> {
    /// Gets a read-only view on the table
    pub fn as_read_only(&self) -> (table: &Ledger<Wallet>)
        ensures
            *table == *old(self.view),
    {
        &*self.view
    }

    /// Get mutable methods for wallets
    pub fn as_mut(&mut self) -> (table: &mut Ledger<Wallet>)
        ensures
            *table == *old(self).view,
            *final(self).view == *final(table),
            *final(final(self).view) == *final(old(self).view),
    {
        &mut *self.view
    }
}

} // verus!

//! The player's currency ledger.
//!
//! A debit either fully succeeds or fully fails and leaves the balance
//! untouched; credits saturate at the largest representable balance.

use vstd::prelude::*;

verus! {

/// Error returned when a debit asks for more money than the wallet holds.
#[derive(Debug, Clone, Copy, PartialEq, Eq, Structural)]
pub struct NotEnoughMoneyErr {}

/// Currency ledger with a guarded debit.
#[derive(Debug, Clone)]
pub struct Wallet {
    balance: u64,
}

impl Default for Wallet {
    /// A fresh wallet is empty.
    fn default() -> (w: Wallet)
        ensures
            w.spec_balance() == 0,
    {
        Wallet { balance: 0 }
    }
}

impl Wallet {
    /// The balance as seen by specifications.
    pub closed spec fn spec_balance(&self) -> u64 {
        self.balance
    }

    /// Current balance.
    pub fn balance(&self) -> (b: u64)
        ensures
            b == self.spec_balance(),
    {
        self.balance
    }

    /// Credit `to_add`, saturating at the largest representable balance.
    pub fn add_money(&mut self, to_add: u64)
        ensures
            final(self).spec_balance() == if old(self).spec_balance() + to_add <= u64::MAX {
                old(self).spec_balance() + to_add
            } else {
                u64::MAX as int
            },
    {
        self.balance = match self.balance.checked_add(to_add) {
            Some(b) => b,
            None => u64::MAX,
        };
    }

    /// Debit exactly `to_take`, or fail without touching the balance when the
    /// wallet holds less than `to_take`.
    pub fn take_money(&mut self, to_take: u64) -> (r: Result<(), NotEnoughMoneyErr>)
        ensures
            r is Ok <==> to_take <= old(self).spec_balance(),
            r is Ok ==> final(self).spec_balance() == old(self).spec_balance() - to_take,
            r is Err ==> *final(self) == *old(self),
    {
        match self.balance.checked_sub(to_take) {
            Some(b) => {
                self.balance = b;
                Ok(())
            },
            None => Err(NotEnoughMoneyErr {}),
        }
    }

    /// Pay `cost` to run `callback`: the callback runs exactly when the debit
    /// succeeds, and a failed debit leaves the balance unchanged.
    pub fn pay_to_do<F: FnOnce()>(&mut self, cost: u64, callback: F) -> (r: Result<
        (),
        NotEnoughMoneyErr,
    >)
        requires
            call_requires(callback, ()),
        ensures
            r is Ok <==> cost <= old(self).spec_balance(),
            r is Ok ==> final(self).spec_balance() == old(self).spec_balance() - cost
                && call_ensures(callback, (), ()),
            r is Err ==> *final(self) == *old(self),
    {
        match self.take_money(cost) {
            Ok(_) => {
                callback();
                Ok(())
            },
            Err(e) => Err(e),
        }
    }
}

} // verus!

use super::symbols::AssetSymbol;
use super::LedgerError;
use crate::money::Monetary;
use vstd::prelude::*;

verus! {

/// A currency held in the ledger, with its balance.
#[derive(Debug)]
pub struct Asset {
    pub symbol: AssetSymbol,
    pub balance: Monetary,
}

impl Asset {
    pub fn new(symbol: String) -> (r: Asset)
        ensures
            r.symbol.symbol@ == symbol@,
            r.balance == 0,
    {
        Asset { symbol: AssetSymbol { symbol }, balance: 0 }
    }

    pub fn get_symbol(&self) -> (r: &AssetSymbol)
        ensures
            r == &self.symbol,
    {
        &self.symbol
    }

    pub fn get_balance(&self) -> (r: Monetary)
        ensures
            r == self.balance,
    {
        self.balance
    }

    /// Overwrites the balance; a balance is never negative.
    pub fn set_balance(&mut self, balance: Monetary)
        requires
            balance >= 0,
        ensures
            final(self).balance == balance,
            final(self).symbol == old(self).symbol,
    {
        self.balance = balance;
    }

    /// Adds `delta` (which may be negative) to the balance. A balance never goes
    /// below zero: such a change is refused, as is one past the largest amount,
    /// and the balance is then left as it was.
    pub fn add_balance(&mut self, delta: Monetary) -> (r: Result<(), LedgerError>)
        ensures
            final(self).symbol == old(self).symbol,
            old(self).balance + delta < 0 ==> r == Err::<(), LedgerError>(LedgerError::NegativeBalance)
                && final(self).balance == old(self).balance,
            old(self).balance + delta > i64::MAX ==> r == Err::<(), LedgerError>(LedgerError::Overflow)
                && final(self).balance == old(self).balance,
            0 <= old(self).balance + delta <= i64::MAX ==> r is Ok && final(self).balance == old(self).balance + delta,
    {
        let sum: i128 = self.balance as i128 + delta as i128;
        if sum < 0 {
            return Err(LedgerError::NegativeBalance);
        }
        if sum > i64::MAX as i128 {
            return Err(LedgerError::Overflow);
        }
        self.balance = sum as i64;
        Ok(())
    }
}

} // verus!

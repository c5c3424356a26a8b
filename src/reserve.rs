use vstd::prelude::*;
use crate::error::ErrorCode;

verus! {

/// The native asset held in custody on behalf of every wrapper.
pub struct CustodyReserve {
    balance: u64,
}

impl CustodyReserve {
    /// Units held, in the asset's smallest denomination.
    pub closed spec fn spec_balance(&self) -> nat {
        self.balance as nat
    }

    /// An empty reserve.
    pub fn new() -> (r: CustodyReserve)
        ensures
            r.spec_balance() == 0,
    {
        CustodyReserve { balance: 0 }
    }

    pub fn balance(&self) -> (r: u64)
        ensures
            r as nat == self.spec_balance(),
    {
        self.balance
    }

    /// Takes `amount` into custody.
    pub fn deposit(&mut self, amount: u64) -> (r: Result<(), ErrorCode>)
        ensures
            amount == 0 ==> r == Err::<(), ErrorCode>(ErrorCode::InvalidAmount),
            amount > 0 && old(self).spec_balance() + amount > u64::MAX ==> r == Err::<
                (),
                ErrorCode,
            >(ErrorCode::Overflow),
            amount > 0 && old(self).spec_balance() + amount <= u64::MAX ==> r is Ok,
            r is Ok ==> final(self).spec_balance() == old(self).spec_balance() + amount,
            r is Err ==> *final(self) == *old(self),
    {
        if amount == 0 {
            return Err(ErrorCode::InvalidAmount);
        }
        match self.balance.checked_add(amount) {
            Some(b) => {
                self.balance = b;
                Ok(())
            },
            None => Err(ErrorCode::Overflow),
        }
    }

    /// Pays `amount` out of custody.
    pub fn release(&mut self, amount: u64) -> (r: Result<(), ErrorCode>)
        ensures
            amount == 0 ==> r == Err::<(), ErrorCode>(ErrorCode::InvalidAmount),
            amount > 0 && amount > old(self).spec_balance() ==> r == Err::<(), ErrorCode>(
                ErrorCode::InsufficientReserve,
            ),
            amount > 0 && amount <= old(self).spec_balance() ==> r is Ok,
            r is Ok ==> final(self).spec_balance() + amount == old(self).spec_balance(),
            r is Err ==> *final(self) == *old(self),
    {
        if amount == 0 {
            return Err(ErrorCode::InvalidAmount);
        }
        if amount > self.balance {
            return Err(ErrorCode::InsufficientReserve);
        }
        self.balance = self.balance - amount;
        Ok(())
    }
}

} // verus!

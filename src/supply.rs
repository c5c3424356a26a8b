use vstd::prelude::*;
use crate::balances::{Balances, HolderId};
use crate::error::ErrorCode;

verus! {

/// The substitute token: its total supply and each holder's balance.
pub struct SupplyLedger {
    total_supply: u64,
    holders: Balances,
}

impl SupplyLedger {
    /// The total supply is the sum of the holders' balances.
    pub closed spec fn wf(&self) -> bool {
        &&& self.holders.wf()
        &&& self.total_supply as nat == self.holders.spec_total()
    }

    pub closed spec fn spec_total_supply(&self) -> nat {
        self.total_supply as nat
    }

    pub closed spec fn spec_balance(&self, h: HolderId) -> nat {
        self.holders.spec_balance(h)
    }

    /// No holder has more than the whole supply.
    pub proof fn lemma_balance_le_supply(&self, h: HolderId)
        requires
            self.wf(),
        ensures
            self.spec_balance(h) <= self.spec_total_supply(),
    {
        self.holders.lemma_balance_le_total(h);
    }

    /// A ledger with nothing issued.
    pub fn new() -> (r: SupplyLedger)
        ensures
            r.wf(),
            r.spec_total_supply() == 0,
            forall|h: HolderId| r.spec_balance(h) == 0,
    {
        SupplyLedger { total_supply: 0, holders: Balances::new() }
    }

    pub fn total_supply(&self) -> (r: u64)
        ensures
            r as nat == self.spec_total_supply(),
    {
        self.total_supply
    }

    pub fn balance_of(&self, h: HolderId) -> (r: u64)
        requires
            self.wf(),
        ensures
            r as nat == self.spec_balance(h),
    {
        self.holders.balance_of(h)
    }

    /// Issues `amount` new tokens to `holder`.
    pub fn mint(&mut self, holder: HolderId, amount: u64) -> (r: Result<(), ErrorCode>)
        requires
            old(self).wf(),
        ensures
            final(self).wf(),
            amount == 0 ==> r == Err::<(), ErrorCode>(ErrorCode::InvalidAmount),
            amount > 0 && old(self).spec_total_supply() + amount > u64::MAX ==> r == Err::<
                (),
                ErrorCode,
            >(ErrorCode::Overflow),
            amount > 0 && old(self).spec_total_supply() + amount <= u64::MAX ==> r is Ok,
            r is Err ==> *final(self) == *old(self),
            r is Ok ==> {
                &&& final(self).spec_total_supply() == old(self).spec_total_supply() + amount
                &&& final(self).spec_balance(holder) == old(self).spec_balance(holder) + amount
                &&& forall|g: HolderId|
                    #![trigger final(self).spec_balance(g)]
                    g != holder ==> final(self).spec_balance(g) == old(self).spec_balance(g)
            },
    {
        if amount == 0 {
            return Err(ErrorCode::InvalidAmount);
        }
        if self.total_supply > u64::MAX - amount {
            return Err(ErrorCode::Overflow);
        }
        proof {
            self.holders.lemma_balance_le_total(holder);
        }
        let credited = self.holders.credit(holder, amount);
        match credited {
            Ok(()) => {
                self.total_supply = self.total_supply + amount;
                Ok(())
            },
            Err(e) => Err(e),
        }
    }

    /// Destroys `amount` tokens of `holder`, on the authority of `signer`.
    pub fn burn(&mut self, signer: HolderId, holder: HolderId, amount: u64) -> (r: Result<
        (),
        ErrorCode,
    >)
        requires
            old(self).wf(),
        ensures
            final(self).wf(),
            amount == 0 ==> r == Err::<(), ErrorCode>(ErrorCode::InvalidAmount),
            amount > 0 && signer != holder ==> r == Err::<(), ErrorCode>(ErrorCode::Unauthorized),
            amount > 0 && signer == holder && old(self).spec_balance(holder) < amount ==> r
                == Err::<(), ErrorCode>(ErrorCode::InsufficientBalance),
            amount > 0 && signer == holder && old(self).spec_balance(holder) >= amount ==> r is Ok,
            r is Err ==> *final(self) == *old(self),
            r is Ok ==> {
                &&& final(self).spec_total_supply() + amount == old(self).spec_total_supply()
                &&& final(self).spec_balance(holder) + amount == old(self).spec_balance(holder)
                &&& forall|g: HolderId|
                    #![trigger final(self).spec_balance(g)]
                    g != holder ==> final(self).spec_balance(g) == old(self).spec_balance(g)
            },
    {
        if amount == 0 {
            return Err(ErrorCode::InvalidAmount);
        }
        if signer != holder {
            return Err(ErrorCode::Unauthorized);
        }
        let debited = self.holders.debit(holder, amount);
        match debited {
            Ok(()) => {
                self.total_supply = self.total_supply - amount;
                Ok(())
            },
            Err(e) => Err(e),
        }
    }
}

} // verus!

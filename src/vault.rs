use vstd::prelude::*;
use crate::balances::{Balances, HolderId};
use crate::error::ErrorCode;
use crate::reserve::CustodyReserve;
use crate::supply::SupplyLedger;

verus! {

/// The wrapper's whole state: the custody reserve, the substitute token's
/// ledger, and the native-asset balances of the callers' own accounts.
///
/// Only the vault mutates its reserve and ledger, so it is the sole
/// authority that mints, burns and pays out of custody.
pub struct Vault {
    reserve: CustodyReserve,
    supply: SupplyLedger,
    wallets: Balances,
}

/// Which error `wrap(caller, amount)` fails with on `v`, if any.
pub open spec fn wrap_error(v: Vault, caller: HolderId, amount: u64) -> Option<ErrorCode> {
    if amount == 0 {
        Some(ErrorCode::InvalidAmount)
    } else if v.native_balance(caller) < amount {
        Some(ErrorCode::InsufficientFunds)
    } else if v.reserve_balance() + amount > u64::MAX {
        Some(ErrorCode::Overflow)
    } else {
        None
    }
}

/// Which error `unwrap(caller, amount)` fails with on `v`, if any.
pub open spec fn unwrap_error(v: Vault, caller: HolderId, amount: u64) -> Option<ErrorCode> {
    if amount == 0 {
        Some(ErrorCode::InvalidAmount)
    } else if v.token_balance(caller) < amount {
        Some(ErrorCode::InsufficientBalance)
    } else if v.native_balance(caller) + amount > u64::MAX {
        Some(ErrorCode::Overflow)
    } else {
        None
    }
}

/// `post` is `pre` after `amount` native units of `caller` went into custody
/// and `amount` substitute tokens were minted to `caller`.
pub open spec fn wrapped(pre: Vault, post: Vault, caller: HolderId, amount: u64) -> bool {
    &&& post.wf()
    &&& post.reserve_balance() == pre.reserve_balance() + amount
    &&& post.total_supply() == pre.total_supply() + amount
    &&& post.token_balance(caller) == pre.token_balance(caller) + amount
    &&& post.native_balance(caller) + amount == pre.native_balance(caller)
    &&& forall|h: HolderId|
        #![trigger post.token_balance(h)]
        h != caller ==> post.token_balance(h) == pre.token_balance(h)
    &&& forall|h: HolderId|
        #![trigger post.native_balance(h)]
        h != caller ==> post.native_balance(h) == pre.native_balance(h)
}

/// `post` is `pre` after `amount` substitute tokens of `caller` were burned
/// and `amount` native units were paid out of custody to `caller`.
pub open spec fn unwrapped(pre: Vault, post: Vault, caller: HolderId, amount: u64) -> bool {
    &&& post.wf()
    &&& post.reserve_balance() + amount == pre.reserve_balance()
    &&& post.total_supply() + amount == pre.total_supply()
    &&& post.token_balance(caller) + amount == pre.token_balance(caller)
    &&& post.native_balance(caller) == pre.native_balance(caller) + amount
    &&& forall|h: HolderId|
        #![trigger post.token_balance(h)]
        h != caller ==> post.token_balance(h) == pre.token_balance(h)
    &&& forall|h: HolderId|
        #![trigger post.native_balance(h)]
        h != caller ==> post.native_balance(h) == pre.native_balance(h)
}

impl Vault {
    /// The ledgers are consistent, and the supply equals what is in custody.
    pub closed spec fn wf(&self) -> bool {
        &&& self.supply.wf()
        &&& self.wallets.wf()
        &&& self.reserve.spec_balance() == self.supply.spec_total_supply()
    }

    pub closed spec fn reserve_balance(&self) -> nat {
        self.reserve.spec_balance()
    }

    pub closed spec fn total_supply(&self) -> nat {
        self.supply.spec_total_supply()
    }

    /// The substitute-token balance of `h`.
    pub closed spec fn token_balance(&self, h: HolderId) -> nat {
        self.supply.spec_balance(h)
    }

    /// The native-asset balance of `h`'s own account.
    pub closed spec fn native_balance(&self, h: HolderId) -> nat {
        self.wallets.spec_balance(h)
    }

    /// Custody and supply agree on a well-formed vault.
    pub proof fn lemma_reserve_eq_supply(&self)
        requires
            self.wf(),
        ensures
            self.reserve_balance() == self.total_supply(),
    {
    }

    /// No account holds more native units than a `u64` counts.
    pub proof fn lemma_native_bounded(&self, h: HolderId)
        requires
            self.wf(),
        ensures
            self.native_balance(h) <= u64::MAX,
    {
        self.wallets.lemma_balance_bounded(h);
    }

    /// The state at genesis: nothing in custody, nothing issued, no funds.
    pub fn new() -> (r: Vault)
        ensures
            r.wf(),
            r.reserve_balance() == 0,
            r.total_supply() == 0,
            forall|h: HolderId| #[trigger] r.token_balance(h) == 0,
            forall|h: HolderId| #[trigger] r.native_balance(h) == 0,
    {
        Vault { reserve: CustodyReserve::new(), supply: SupplyLedger::new(), wallets: Balances::new() }
    }

    /// Rebuilds, from stored figures, the vault as `caller` sees it: `supply`
    /// in custody and issued, `token` of it held by `caller` and the rest by
    /// other holders, and `native` units in `caller`'s own account. `None`
    /// where `caller` would hold more than the whole supply.
    pub fn snapshot(caller: HolderId, token: u64, native: u64, supply: u64) -> (r: Option<Vault>)
        ensures
            token > supply ==> r is None,
            token <= supply ==> (r matches Some(v) && {
                &&& v.wf()
                &&& v.reserve_balance() == supply
                &&& v.total_supply() == supply
                &&& v.token_balance(caller) == token
                &&& v.native_balance(caller) == native
            }),
    {
        if token > supply {
            return None;
        }
        let others: HolderId = if caller == 0 { 1 } else { 0 };
        let rest: u64 = supply - token;
        let mut v = Vault::new();
        if rest > 0 {
            let _ = v.receive_native(others, rest);
            let _ = v.wrap(others, rest);
        }
        if token > 0 {
            let _ = v.receive_native(caller, token);
            let _ = v.wrap(caller, token);
        }
        if native > 0 {
            let _ = v.receive_native(caller, native);
        }
        Some(v)
    }

    pub fn reserve(&self) -> (r: u64)
        ensures
            r as nat == self.reserve_balance(),
    {
        self.reserve.balance()
    }

    pub fn supply(&self) -> (r: u64)
        ensures
            r as nat == self.total_supply(),
    {
        self.supply.total_supply()
    }

    pub fn token_balance_of(&self, h: HolderId) -> (r: u64)
        requires
            self.wf(),
        ensures
            r as nat == self.token_balance(h),
    {
        self.supply.balance_of(h)
    }

    pub fn native_balance_of(&self, h: HolderId) -> (r: u64)
        requires
            self.wf(),
        ensures
            r as nat == self.native_balance(h),
    {
        self.wallets.balance_of(h)
    }

    /// Records `amount` native units arriving in `h`'s own account from
    /// outside the wrapper; custody and supply are untouched.
    pub fn receive_native(&mut self, h: HolderId, amount: u64) -> (r: Result<(), ErrorCode>)
        requires
            old(self).wf(),
        ensures
            final(self).wf(),
            old(self).native_balance(h) + amount > u64::MAX ==> r == Err::<(), ErrorCode>(
                ErrorCode::Overflow,
            ) && *final(self) == *old(self),
            old(self).native_balance(h) + amount <= u64::MAX ==> r is Ok
                && final(self).native_balance(h) == old(self).native_balance(h) + amount
                && final(self).reserve_balance() == old(self).reserve_balance()
                && final(self).total_supply() == old(self).total_supply()
                && (forall|g: HolderId| #[trigger]
                final(self).token_balance(g) == old(self).token_balance(g)) && (forall|g: HolderId|
                #![trigger final(self).native_balance(g)]
                g != h ==> final(self).native_balance(g) == old(self).native_balance(g)),
    {
        self.wallets.credit(h, amount)
    }

    /// Deposits `amount` native units of `caller` into custody and mints as
    /// many substitute tokens to `caller`, or fails and changes nothing.
    pub fn wrap(&mut self, caller: HolderId, amount: u64) -> (r: Result<(), ErrorCode>)
        requires
            old(self).wf(),
        ensures
            final(self).wf(),
            match r {
                Ok(()) => wrap_error(*old(self), caller, amount) is None && wrapped(
                    *old(self),
                    *final(self),
                    caller,
                    amount,
                ),
                Err(e) => wrap_error(*old(self), caller, amount) == Some(e) && *final(self)
                    == *old(self),
            },
    {
        if amount == 0 {
            return Err(ErrorCode::InvalidAmount);
        }
        if self.wallets.balance_of(caller) < amount {
            return Err(ErrorCode::InsufficientFunds);
        }
        if self.reserve.balance() > u64::MAX - amount {
            return Err(ErrorCode::Overflow);
        }
        let debited = self.wallets.debit(caller, amount);
        let deposited = self.reserve.deposit(amount);
        let minted = self.supply.mint(caller, amount);
        assert(debited is Ok && deposited is Ok && minted is Ok);
        Ok(())
    }

    /// Burns `amount` substitute tokens of `caller` and then pays as many
    /// native units out of custody to `caller`, or fails and changes nothing.
    pub fn unwrap(&mut self, caller: HolderId, amount: u64) -> (r: Result<(), ErrorCode>)
        requires
            old(self).wf(),
        ensures
            final(self).wf(),
            match r {
                Ok(()) => unwrap_error(*old(self), caller, amount) is None && unwrapped(
                    *old(self),
                    *final(self),
                    caller,
                    amount,
                ),
                Err(e) => unwrap_error(*old(self), caller, amount) == Some(e) && *final(self)
                    == *old(self),
            },
    {
        if amount == 0 {
            return Err(ErrorCode::InvalidAmount);
        }
        if self.supply.balance_of(caller) < amount {
            return Err(ErrorCode::InsufficientBalance);
        }
        if self.wallets.balance_of(caller) > u64::MAX - amount {
            return Err(ErrorCode::Overflow);
        }
        proof {
            self.supply.lemma_balance_le_supply(caller);
        }
        let burned = self.supply.burn(caller, caller, amount);
        let released = self.reserve.release(amount);
        let credited = self.wallets.credit(caller, amount);
        assert(burned is Ok && released is Ok && credited is Ok);
        Ok(())
    }
}

} // verus!

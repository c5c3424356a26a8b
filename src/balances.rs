use vstd::prelude::*;
use crate::error::ErrorCode;

verus! {

/// Identity of an account owner, as proven by the hosting platform.
pub type HolderId = u64;

/// One owner's balance inside a [`Balances`] table.
#[derive(Debug, Clone, Copy, PartialEq, Eq, Structural)]
pub struct Holding {
    pub holder: HolderId,
    pub amount: u64,
}

/// Sum of the amounts that the entries of `s` record for `h`.
pub open spec fn amount_in(s: Seq<Holding>, h: HolderId) -> nat
    decreases s.len(),
{
    if s.len() == 0 {
        0
    } else {
        let rest = amount_in(s.drop_last(), h);
        if s.last().holder == h {
            rest + s.last().amount as nat
        } else {
            rest
        }
    }
}

/// Sum of all the amounts recorded in `s`.
pub open spec fn total_of(s: Seq<Holding>) -> nat
    decreases s.len(),
{
    if s.len() == 0 {
        0
    } else {
        total_of(s.drop_last()) + s.last().amount as nat
    }
}

/// No owner has two entries.
pub open spec fn holders_unique(s: Seq<Holding>) -> bool {
    forall|i: int, j: int|
        0 <= i < s.len() && 0 <= j < s.len() && i != j ==> s[i].holder != s[j].holder
}

proof fn lemma_amount_absent(s: Seq<Holding>, h: HolderId)
    requires
        forall|i: int| 0 <= i < s.len() ==> s[i].holder != h,
    ensures
        amount_in(s, h) == 0,
    decreases s.len(),
{
    if s.len() > 0 {
        lemma_amount_absent(s.drop_last(), h);
    }
}

proof fn lemma_amount_at(s: Seq<Holding>, i: int)
    requires
        holders_unique(s),
        0 <= i < s.len(),
    ensures
        amount_in(s, s[i].holder) == s[i].amount,
    decreases s.len(),
{
    let h = s[i].holder;
    if i == s.len() - 1 {
        assert forall|j: int| 0 <= j < s.drop_last().len() implies s.drop_last()[j].holder != h by {
            assert(s.drop_last()[j] == s[j]);
        }
        lemma_amount_absent(s.drop_last(), h);
    } else {
        assert(s.drop_last()[i] == s[i]);
        lemma_amount_at(s.drop_last(), i);
    }
}

proof fn lemma_amount_le_total(s: Seq<Holding>, h: HolderId)
    ensures
        amount_in(s, h) <= total_of(s),
    decreases s.len(),
{
    if s.len() > 0 {
        lemma_amount_le_total(s.drop_last(), h);
    }
}

proof fn lemma_update(s: Seq<Holding>, i: int, x: Holding)
    requires
        0 <= i < s.len(),
        x.holder == s[i].holder,
    ensures
        total_of(s.update(i, x)) + s[i].amount == total_of(s) + x.amount,
        forall|h: HolderId|
            #![trigger amount_in(s.update(i, x), h)]
            h != x.holder ==> amount_in(s.update(i, x), h) == amount_in(s, h),
        amount_in(s.update(i, x), x.holder) + s[i].amount == amount_in(s, x.holder) + x.amount,
    decreases s.len(),
{
    let t = s.update(i, x);
    if i == s.len() - 1 {
        assert(t.drop_last() =~= s.drop_last());
    } else {
        assert(t.drop_last() =~= s.drop_last().update(i, x));
        lemma_update(s.drop_last(), i, x);
        assert forall|h: HolderId| h != x.holder implies amount_in(t, h) == amount_in(s, h) by {
            assert(amount_in(t.drop_last(), h) == amount_in(s.drop_last(), h));
        }
    }
}

/// A table of per-owner balances: at most one entry per owner.
pub struct Balances {
    entries: Vec<Holding>,
}

impl Balances {
    /// Keys of the table are unique.
    pub closed spec fn wf(&self) -> bool {
        holders_unique(self.entries@)
    }

    /// The balance recorded for `h` (zero where none is).
    pub closed spec fn spec_balance(&self, h: HolderId) -> nat {
        amount_in(self.entries@, h)
    }

    /// The sum of all balances.
    pub closed spec fn spec_total(&self) -> nat {
        total_of(self.entries@)
    }

    pub proof fn lemma_balance_le_total(&self, h: HolderId)
        ensures
            self.spec_balance(h) <= self.spec_total(),
    {
        lemma_amount_le_total(self.entries@, h);
    }

    /// Each balance fits in a `u64`.
    pub proof fn lemma_balance_bounded(&self, h: HolderId)
        requires
            self.wf(),
        ensures
            self.spec_balance(h) <= u64::MAX,
    {
        let s = self.entries@;
        if exists|i: int| 0 <= i < s.len() && s[i].holder == h {
            let i = choose|i: int| 0 <= i < s.len() && s[i].holder == h;
            lemma_amount_at(s, i);
        } else {
            lemma_amount_absent(s, h);
        }
    }

    /// An empty table.
    pub fn new() -> (r: Balances)
        ensures
            r.wf(),
            r.spec_total() == 0,
            forall|h: HolderId| r.spec_balance(h) == 0,
    {
        let r = Balances { entries: Vec::new() };
        assert forall|h: HolderId| r.spec_balance(h) == 0 by {
            lemma_amount_absent(r.entries@, h);
        }
        r
    }

    fn find(&self, h: HolderId) -> (r: Option<usize>)
        requires
            self.wf(),
        ensures
            match r {
                Some(i) => i < self.entries@.len() && self.entries@[i as int].holder == h
                    && self.spec_balance(h) == self.entries@[i as int].amount,
                None => forall|j: int| 0 <= j < self.entries@.len() ==> self.entries@[j].holder != h,
            },
            r is None ==> self.spec_balance(h) == 0,
    {
        let mut i: usize = 0;
        while i < self.entries.len()
            invariant
                self.wf(),
                i <= self.entries@.len(),
                forall|j: int| 0 <= j < i ==> self.entries@[j].holder != h,
            decreases self.entries@.len() - i,
        {
            if self.entries[i].holder == h {
                proof {
                    lemma_amount_at(self.entries@, i as int);
                }
                return Some(i);
            }
            i = i + 1;
        }
        proof {
            lemma_amount_absent(self.entries@, h);
        }
        None
    }

    /// The balance recorded for `h`.
    pub fn balance_of(&self, h: HolderId) -> (r: u64)
        requires
            self.wf(),
        ensures
            r as nat == self.spec_balance(h),
    {
        match self.find(h) {
            Some(i) => self.entries[i].amount,
            None => 0,
        }
    }

    /// Adds `amount` to the balance of `h`; fails with `Overflow`, leaving the
    /// table unchanged, where that balance would not fit in a `u64`.
    pub fn credit(&mut self, h: HolderId, amount: u64) -> (r: Result<(), ErrorCode>)
        requires
            old(self).wf(),
        ensures
            final(self).wf(),
            old(self).spec_balance(h) + amount > u64::MAX ==> r == Err::<(), ErrorCode>(
                ErrorCode::Overflow,
            ) && *final(self) == *old(self),
            old(self).spec_balance(h) + amount <= u64::MAX ==> r is Ok
                && final(self).spec_balance(h) == old(self).spec_balance(h) + amount
                && final(self).spec_total() == old(self).spec_total() + amount
                && forall|g: HolderId|
                #![trigger final(self).spec_balance(g)]
                g != h ==> final(self).spec_balance(g) == old(self).spec_balance(g),
    {
        match self.find(h) {
            Some(i) => {
                let cur = self.entries[i];
                if cur.amount > u64::MAX - amount {
                    return Err(ErrorCode::Overflow);
                }
                let x = Holding { holder: h, amount: cur.amount + amount };
                proof {
                    lemma_update(self.entries@, i as int, x);
                }
                self.entries.set(i, x);
                Ok(())
            },
            None => {
                let x = Holding { holder: h, amount };
                let ghost s = self.entries@;
                self.entries.push(x);
                proof {
                    assert(self.entries@.drop_last() =~= s);
                }
                Ok(())
            },
        }
    }

    /// Takes `amount` from the balance of `h`; fails with `InsufficientBalance`,
    /// leaving the table unchanged, where that balance is smaller than `amount`.
    pub fn debit(&mut self, h: HolderId, amount: u64) -> (r: Result<(), ErrorCode>)
        requires
            old(self).wf(),
        ensures
            final(self).wf(),
            old(self).spec_balance(h) < amount ==> r == Err::<(), ErrorCode>(
                ErrorCode::InsufficientBalance,
            ) && *final(self) == *old(self),
            old(self).spec_balance(h) >= amount ==> r is Ok
                && final(self).spec_balance(h) + amount == old(self).spec_balance(h)
                && final(self).spec_total() + amount == old(self).spec_total()
                && forall|g: HolderId|
                #![trigger final(self).spec_balance(g)]
                g != h ==> final(self).spec_balance(g) == old(self).spec_balance(g),
    {
        match self.find(h) {
            Some(i) => {
                let cur = self.entries[i];
                if cur.amount < amount {
                    return Err(ErrorCode::InsufficientBalance);
                }
                let x = Holding { holder: h, amount: cur.amount - amount };
                proof {
                    lemma_update(self.entries@, i as int, x);
                }
                self.entries.set(i, x);
                Ok(())
            },
            None => {
                if amount > 0 {
                    return Err(ErrorCode::InsufficientBalance);
                }
                Ok(())
            },
        }
    }
}

} // verus!

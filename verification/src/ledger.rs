//! The balance ledger the registry bonds against.
//!
//! The registry never custodies value itself: it only inspects an account's
//! reducible balance and asks the ledger to place a hold. This module models
//! the narrow slice of a ledger that those two requests need: free balances
//! per account, and a journal of the holds placed so far. Balances are kept
//! as a journal of postings in which the latest entry for an account wins,
//! so every operation is a plain append.

use vstd::prelude::*;

use crate::pallet::HoldReason;
use crate::{AccountId, Balance};

verus! {

/// A single reservation of funds, tagged with the reason it was placed so
/// that it cannot be confused with holds placed for other purposes.
#[derive(Clone, Copy, Debug, PartialEq, Eq, Structural)]
pub struct Hold {
    pub reason: HoldReason,
    pub who: AccountId,
    pub amount: Balance,
}

/// Failures the ledger itself can report.
#[derive(Clone, Copy, Debug, PartialEq, Eq, Structural)]
pub enum LedgerError {
    /// The account's reducible balance does not cover the requested hold.
    FundsUnavailable,
    /// Crediting the account would overflow the balance type.
    Overflow,
}

/// Free balances per account plus the journal of holds placed so far.
pub struct Ledger {
    accounts: Vec<(AccountId, Balance)>,
    holds: Vec<Hold>,
}

impl Ledger {
    /// The balance recorded for `who` by the latest posting, `0` if none.
    spec fn balance_in(postings: Seq<(AccountId, Balance)>, who: AccountId) -> Balance
        decreases postings.len(),
    {
        if postings.len() == 0 {
            0
        } else if postings.last().0 == who {
            postings.last().1
        } else {
            Self::balance_in(postings.drop_last(), who)
        }
    }

    /// The portion of `who`'s funds eligible to be placed under a new hold.
    /// Funds already on hold are not part of it.
    pub closed spec fn spec_reducible(self, who: AccountId) -> Balance {
        Self::balance_in(self.accounts@, who)
    }

    /// Every hold placed so far, oldest first.
    pub closed spec fn spec_holds(self) -> Seq<Hold> {
        self.holds@
    }

    /// A ledger with no balances and no holds.
    pub fn new() -> (r: Ledger)
        ensures
            forall|a: AccountId| r.spec_reducible(a) == 0,
            r.spec_holds() =~= Seq::<Hold>::empty(),
    {
        Ledger { accounts: Vec::new(), holds: Vec::new() }
    }

    /// The reducible balance of `who`, under the conservative policy: funds
    /// under hold are excluded, and nothing is forced free.
    pub fn reducible_balance(&self, who: AccountId) -> (r: Balance)
        ensures
            r == self.spec_reducible(who),
    {
        let mut i: usize = 0;
        let mut found: Balance = 0;
        while i < self.accounts.len()
            invariant
                i <= self.accounts.len(),
                found == Self::balance_in(self.accounts@.take(i as int), who),
            decreases self.accounts.len() - i,
        {
            if self.accounts[i].0 == who {
                found = self.accounts[i].1;
            }
            i = i + 1;
            proof {
                assert(self.accounts@.take(i as int).drop_last() =~= self.accounts@.take(
                    i as int - 1,
                ));
                assert(self.accounts@.take(i as int).last() == self.accounts@[i as int - 1]);
            }
        }
        proof {
            assert(self.accounts@.take(self.accounts@.len() as int) =~= self.accounts@);
        }
        found
    }

    /// Credit `amount` of free balance to `who`. Fails, changing nothing,
    /// only when the account's balance would overflow.
    pub fn mint_into(&mut self, who: AccountId, amount: Balance) -> (r: Result<(), LedgerError>)
        ensures
            final(self).spec_holds() == old(self).spec_holds(),
            forall|a: AccountId|
                a != who ==> final(self).spec_reducible(a) == old(self).spec_reducible(a),
            old(self).spec_reducible(who) + amount <= Balance::MAX ==> {
                &&& r == Ok::<(), LedgerError>(())
                &&& final(self).spec_reducible(who) == old(self).spec_reducible(who) + amount
            },
            old(self).spec_reducible(who) + amount > Balance::MAX ==> {
                &&& r == Err::<(), LedgerError>(LedgerError::Overflow)
                &&& *final(self) == *old(self)
            },
    {
        let current: Balance = self.reducible_balance(who);
        if amount <= Balance::MAX - current {
            self.accounts.push((who, current + amount));
            proof {
                assert(self.accounts@.drop_last() =~= old(self).accounts@);
            }
            Ok(())
        } else {
            Err(LedgerError::Overflow)
        }
    }

    /// Place `amount` of `who`'s funds under a hold tagged `reason`. The
    /// request is atomic: either the funds move out of the reducible balance
    /// and the hold is recorded, or the ledger is left untouched.
    pub fn hold(&mut self, reason: HoldReason, who: AccountId, amount: Balance) -> (r: Result<
        (),
        LedgerError,
    >)
        ensures
            forall|a: AccountId|
                a != who ==> final(self).spec_reducible(a) == old(self).spec_reducible(a),
            old(self).spec_reducible(who) >= amount ==> {
                &&& r == Ok::<(), LedgerError>(())
                &&& final(self).spec_reducible(who) == old(self).spec_reducible(who) - amount
                &&& final(self).spec_holds() == old(self).spec_holds().push(
                    (Hold { reason, who, amount }),
                )
            },
            old(self).spec_reducible(who) < amount ==> {
                &&& r == Err::<(), LedgerError>(LedgerError::FundsUnavailable)
                &&& *final(self) == *old(self)
            },
    {
        let current: Balance = self.reducible_balance(who);
        if amount <= current {
            self.accounts.push((who, current - amount));
            self.holds.push(Hold { reason, who, amount });
            proof {
                assert(self.accounts@.drop_last() =~= old(self).accounts@);
            }
            Ok(())
        } else {
            Err(LedgerError::FundsUnavailable)
        }
    }

    /// The holds placed so far, oldest first.
    pub fn holds(&self) -> (r: &Vec<Hold>)
        ensures
            r@ == self.spec_holds(),
    {
        &self.holds
    }
}

} // verus!

//! Redirection of unallocated proceeds into the operator pot.
//!
//! The marketplace hands over an unresolved quantity of value that must be
//! deposited into exactly one account or explicitly given back. The ledger
//! here is the library's model of the account store the deposit lands in:
//! a list of distinct accounts with their balances. Unlike the classic
//! fire-and-forget discard, a failed redirect returns the credit to the
//! caller, which may then log, count or escalate.

use vstd::prelude::*;
use crate::AccountId;

verus! {

/// An unresolved quantity of value. It is consumed by the redirect: on
/// success it is gone into the destination account, on failure it comes
/// back to the caller. It is never duplicated.
#[derive(Debug, PartialEq, Eq)]
pub struct CreditAmount {
    pub amount: u128,
}

/// Why a deposit could not be made.
#[derive(Clone, Copy, Debug, PartialEq, Eq, Structural)]
pub enum DepositError {
    /// The destination account does not exist in the ledger.
    UnknownAccount,
    /// The destination balance cannot hold the amount.
    Overflow,
}

/// The account store deposits land in: distinct account identifiers with
/// their balances, kept as two columns of equal length.
pub struct Ledger {
    pub ids: Vec<AccountId>,
    pub balances: Vec<u128>,
}

impl Ledger {
    /// Both columns have the same length and no account appears twice.
    pub open spec fn wf(&self) -> bool {
        &&& self.ids@.len() == self.balances@.len()
        &&& forall|i: int, j: int|
            0 <= i < j < self.ids@.len() ==> self.ids@[i]@ != self.ids@[j]@
    }

    pub open spec fn has_account(&self, id: Seq<u8>) -> bool {
        exists|i: int| 0 <= i < self.ids@.len() && self.ids@[i]@ == id
    }

    /// The row of the given account, where it exists.
    pub open spec fn index_of(&self, id: Seq<u8>) -> int {
        choose|i: int| 0 <= i < self.ids@.len() && self.ids@[i]@ == id
    }

    pub open spec fn balance_of(&self, id: Seq<u8>) -> u128 {
        self.balances@[self.index_of(id)]
    }

    /// An account can receive an amount when it exists and its balance
    /// has room for it.
    pub open spec fn can_receive(&self, id: Seq<u8>, amount: u128) -> bool {
        self.has_account(id) && self.balance_of(id) + amount <= u128::MAX
    }

    /// An empty ledger.
    pub fn new() -> (r: Ledger)
        ensures
            r.wf(),
            r.ids@.len() == 0,
    {
        Ledger { ids: Vec::new(), balances: Vec::new() }
    }

    fn find_index(&self, id: &AccountId) -> (r: Option<usize>)
        requires
            self.wf(),
        ensures
            match r {
                Some(i) => i < self.ids@.len() && self.ids@[i as int]@ == id@ && self.has_account(
                    id@,
                ) && i == self.index_of(id@),
                None => !self.has_account(id@),
            },
    {
        let mut i: usize = 0;
        while i < self.ids.len()
            invariant
                self.wf(),
                i <= self.ids@.len(),
                forall|j: int| 0 <= j < i ==> self.ids@[j]@ != id@,
            decreases self.ids@.len() - i,
        {
            if bytes_eq(&self.ids[i].bytes, &id.bytes) {
                proof {
                    let k = self.index_of(id@);
                    assert(0 <= k < self.ids@.len() && self.ids@[k]@ == id@);
                    if k != i {
                        assert(self.ids@[k]@ != self.ids@[i as int]@);
                    }
                }
                return Some(i);
            }
            i = i + 1;
        }
        None
    }

    /// Add an account with an opening balance; refused when the account
    /// is already present.
    pub fn add_account(&mut self, id: AccountId, opening: u128) -> (r: bool)
        requires
            old(self).wf(),
        ensures
            final(self).wf(),
            r == !old(self).has_account(id@),
            r ==> final(self).ids@ == old(self).ids@.push(id) && final(self).balances@ == old(
                self,
            ).balances@.push(opening) && final(self).has_account(id@) && final(self).balance_of(
                id@,
            ) == opening,
            !r ==> *final(self) == *old(self),
    {
        match self.find_index(&id) {
            Some(_) => false,
            None => {
                self.ids.push(id);
                self.balances.push(opening);
                proof {
                    let ghost n = old(self).ids@.len() as int;
                    assert(self.has_account(self.ids@[n]@));
                    let k = self.index_of(self.ids@[n]@);
                    if k != n {
                        assert(self.ids@[k]@ != self.ids@[n]@);
                    }
                }
                true
            },
        }
    }

    /// The balance of an account, where it exists.
    pub fn balance(&self, id: &AccountId) -> (r: Option<u128>)
        requires
            self.wf(),
        ensures
            match r {
                Some(b) => self.has_account(id@) && b == self.balance_of(id@),
                None => !self.has_account(id@),
            },
    {
        match self.find_index(id) {
            Some(i) => Some(self.balances[i]),
            None => None,
        }
    }

    /// Deposit an amount into an account. Succeeds if and only if the
    /// account exists and its balance has room; on success exactly that
    /// amount is added and every other account is untouched.
    pub fn deposit(&mut self, id: &AccountId, amount: u128) -> (r: Result<(), DepositError>)
        requires
            old(self).wf(),
        ensures
            final(self).wf(),
            r is Ok <==> old(self).can_receive(id@, amount),
            match r {
                Ok(()) => final(self).ids@ == old(self).ids@ && final(self).balances@ == old(
                    self,
                ).balances@.update(
                    old(self).index_of(id@),
                    (old(self).balance_of(id@) + amount) as u128,
                ) && final(self).balance_of(id@) == old(self).balance_of(id@) + amount && (forall|
                    other: Seq<u8>,
                |
                    old(self).has_account(other) && other != id@ ==> final(self).balance_of(other)
                        == old(self).balance_of(other)),
                Err(DepositError::UnknownAccount) => !old(self).has_account(id@) && *final(self)
                    == *old(self),
                Err(DepositError::Overflow) => old(self).has_account(id@) && old(self).balance_of(
                    id@,
                ) + amount > u128::MAX && *final(self) == *old(self),
            },
    {
        match self.find_index(id) {
            None => Err(DepositError::UnknownAccount),
            Some(i) => {
                let b = self.balances[i];
                if amount <= u128::MAX - b {
                    self.balances.set(i, b + amount);
                    proof {
                        assert(self.ids@ == old(self).ids@);
                        let k = self.index_of(id@);
                        assert(0 <= k < self.ids@.len() && self.ids@[k]@ == id@);
                        if k != i {
                            assert(self.ids@[k]@ != self.ids@[i as int]@);
                        }
                        assert forall|other: Seq<u8>|
                            old(self).has_account(other) && other != id@ implies self.balance_of(
                            other,
                        ) == old(self).balance_of(other) by {
                            let ko = old(self).index_of(other);
                            assert(0 <= ko < self.ids@.len() && self.ids@[ko]@ == other);
                            assert(self.has_account(other));
                            let kn = self.index_of(other);
                            if kn != ko {
                                assert(self.ids@[kn]@ != self.ids@[ko]@);
                            }
                            assert(ko != i as int);
                        }
                    }
                    Ok(())
                } else {
                    Err(DepositError::Overflow)
                }
            },
        }
    }
}

/// Byte-for-byte equality of two buffers.
fn bytes_eq(a: &Vec<u8>, b: &Vec<u8>) -> (r: bool)
    ensures
        r == (a@ == b@),
{
    if a.len() != b.len() {
        assert(a@ != b@);
        return false;
    }
    let mut i: usize = 0;
    while i < a.len()
        invariant
            a@.len() == b@.len(),
            i <= a@.len(),
            forall|j: int| 0 <= j < i ==> a@[j] == b@[j],
        decreases a@.len() - i,
    {
        if a[i] != b[i] {
            return false;
        }
        i = i + 1;
    }
    proof {
        assert(a@ =~= b@);
    }
    true
}

/// Resolves unallocated proceeds into the operator pot.
pub struct CreditToStakingPot {
    /// The account every redirected credit is deposited into.
    pub pot: AccountId,
}

impl CreditToStakingPot {
    pub fn new(pot: AccountId) -> (r: CreditToStakingPot)
        ensures
            r.pot@ == pot@,
    {
        CreditToStakingPot { pot }
    }

    /// Deposit the whole credit into the pot. Succeeds if and only if the
    /// pot can receive it, and then raises the pot's balance by exactly
    /// the credit's amount (zero included) and touches no other account;
    /// otherwise the ledger is unchanged and the credit comes back whole.
    pub fn on_nonzero_unbalanced(&self, ledger: &mut Ledger, credit: CreditAmount) -> (r: Result<
        (),
        CreditAmount,
    >)
        requires
            old(ledger).wf(),
        ensures
            final(ledger).wf(),
            r is Ok <==> old(ledger).can_receive(self.pot@, credit.amount),
            match r {
                Ok(()) => final(ledger).ids@ == old(ledger).ids@ && final(ledger).balance_of(
                    self.pot@,
                ) == old(ledger).balance_of(self.pot@) + credit.amount && (forall|other: Seq<u8>|
                    old(ledger).has_account(other) && other != self.pot@ ==> final(
                        ledger).balance_of(other) == old(ledger).balance_of(other)),
                Err(returned) => returned.amount == credit.amount && *final(ledger) == *old(
                    ledger,
                ),
            },
    {
        match ledger.deposit(&self.pot, credit.amount) {
            Ok(()) => Ok(()),
            Err(_) => Err(credit),
        }
    }
}

} // verus!

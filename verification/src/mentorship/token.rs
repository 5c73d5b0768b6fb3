//! Model of the fungible reward asset.
//!
//! The platform custodies rewards on a token ledger: a finite map from
//! account address to a non-negative balance. A transfer either moves the
//! full amount or fails and changes nothing, exactly like the asset
//! contract the platform relies on. Keeping the ledger as explicit state
//! lets the escrow engine prove solvency: the custody account always covers
//! every outstanding escrow.

use vstd::prelude::*;

use crate::mentorship::errors::ContractError;

verus! {

/// One account row of the ledger.
#[derive(Clone, Copy, Debug)]
pub struct Account {
    pub owner: u64,
    pub balance: i128,
}

/// Balance of `addr` in `s`: the balance of its (unique) row, 0 if absent.
pub open spec fn balance_in(s: Seq<Account>, addr: u64) -> int
    decreases s.len(),
{
    if s.len() == 0 {
        0
    } else if s.last().owner == addr {
        s.last().balance as int
    } else {
        balance_in(s.drop_last(), addr)
    }
}

/// Sum of all balances in `s`.
pub open spec fn sum_balances(s: Seq<Account>) -> int
    decreases s.len(),
{
    if s.len() == 0 {
        0
    } else {
        sum_balances(s.drop_last()) + s.last().balance
    }
}

pub open spec fn owners_unique(s: Seq<Account>) -> bool {
    forall|i: int, j: int| 0 <= i < j < s.len() ==> s[i].owner != s[j].owner
}

pub open spec fn balances_nonneg(s: Seq<Account>) -> bool {
    forall|i: int| 0 <= i < s.len() ==> s[i].balance >= 0
}

/// If every balance is non-negative, any one address holds at most the sum.
proof fn lemma_balance_le_sum(s: Seq<Account>, addr: u64)
    requires
        balances_nonneg(s),
    ensures
        0 <= balance_in(s, addr) <= sum_balances(s),
    decreases s.len(),
{
    if s.len() > 0 {
        assert(balances_nonneg(s.drop_last()));
        lemma_balance_le_sum(s.drop_last(), addr);
        assert(s.last() == s[s.len() - 1]);
    }
}

/// The row at a unique index gives the balance of its owner.
proof fn lemma_balance_at_index(s: Seq<Account>, i: int)
    requires
        owners_unique(s),
        0 <= i < s.len(),
    ensures
        balance_in(s, s[i].owner) == s[i].balance,
    decreases s.len(),
{
    if i == s.len() - 1 {
    } else {
        assert(owners_unique(s.drop_last()));
        assert(s.drop_last()[i] == s[i]);
        lemma_balance_at_index(s.drop_last(), i);
    }
}

/// An address with no row has balance 0.
proof fn lemma_balance_absent(s: Seq<Account>, addr: u64)
    requires
        forall|k: int| 0 <= k < s.len() ==> s[k].owner != addr,
    ensures
        balance_in(s, addr) == 0,
    decreases s.len(),
{
    if s.len() > 0 {
        lemma_balance_absent(s.drop_last(), addr);
    }
}

/// Replacing row `i` (same owner) moves every balance and the sum by the
/// row's delta.
proof fn lemma_update_row(s: Seq<Account>, i: int, v: Account)
    requires
        owners_unique(s),
        0 <= i < s.len(),
        v.owner == s[i].owner,
    ensures
        sum_balances(s.update(i, v)) == sum_balances(s) - s[i].balance + v.balance,
        forall|a: u64|
            balance_in(s.update(i, v), a) == if a == v.owner {
                v.balance as int
            } else {
                balance_in(s, a)
            },
        owners_unique(s.update(i, v)),
    decreases s.len(),
{
    let t = s.update(i, v);
    assert(t.len() == s.len());
    if i == s.len() - 1 {
        assert(t.drop_last() =~= s.drop_last());
        assert(t.last() == v);
        assert forall|a: u64|
            balance_in(t, a) == if a == v.owner {
                v.balance as int
            } else {
                balance_in(s, a)
            } by {
            if a != v.owner {
                assert(balance_in(t, a) == balance_in(t.drop_last(), a));
            }
        }
    } else {
        assert(owners_unique(s.drop_last()));
        assert(s.drop_last()[i] == s[i]);
        lemma_update_row(s.drop_last(), i, v);
        assert(t.drop_last() =~= s.drop_last().update(i, v));
        assert(t.last() == s.last());
        assert(s[i].owner != s[s.len() - 1].owner);
        assert forall|a: u64|
            balance_in(t, a) == if a == v.owner {
                v.balance as int
            } else {
                balance_in(s, a)
            } by {
            if a == s.last().owner {
            } else {
                assert(balance_in(t, a) == balance_in(t.drop_last(), a));
                assert(balance_in(s, a) == balance_in(s.drop_last(), a));
            }
        }
    }
}

/// Appending a row adds its balance to the sum and to its owner.
proof fn lemma_push_row(s: Seq<Account>, v: Account)
    requires
        forall|k: int| 0 <= k < s.len() ==> s[k].owner != v.owner,
    ensures
        sum_balances(s.push(v)) == sum_balances(s) + v.balance,
        forall|a: u64|
            balance_in(s.push(v), a) == if a == v.owner {
                v.balance as int
            } else {
                balance_in(s, a)
            },
{
    let t = s.push(v);
    assert(t.drop_last() =~= s);
    assert(t.last() == v);
    assert forall|a: u64|
        balance_in(t, a) == if a == v.owner {
            v.balance as int
        } else {
            balance_in(s, a)
        } by {
        if a == v.owner {
        } else {
            assert(balance_in(t, a) == balance_in(t.drop_last(), a));
        }
    }
}

/// The reward-asset ledger.
pub struct TokenLedger {
    accounts: Vec<Account>,
}

impl TokenLedger {
    /// Current balance of `addr` (0 for an address with no row).
    pub closed spec fn spec_balance(self, addr: u64) -> int {
        balance_in(self.accounts@, addr)
    }

    /// Total value on the ledger.
    pub closed spec fn total(self) -> int {
        sum_balances(self.accounts@)
    }

    /// Ledger invariant: one row per owner, no negative balances, and the
    /// total fits the balance type, so moving value can never overflow.
    pub closed spec fn wf(self) -> bool {
        &&& owners_unique(self.accounts@)
        &&& balances_nonneg(self.accounts@)
        &&& sum_balances(self.accounts@) <= i128::MAX as int
    }

    pub proof fn lemma_wf_balance(self, addr: u64)
        requires
            self.wf(),
        ensures
            0 <= self.spec_balance(addr) <= self.total() <= i128::MAX as int,
    {
        lemma_balance_le_sum(self.accounts@, addr);
    }

    /// An empty ledger.
    pub fn new() -> (r: TokenLedger)
        ensures
            r.wf(),
            r.total() == 0,
            forall|a: u64| r.spec_balance(a) == 0,
    {
        let r = TokenLedger { accounts: Vec::new() };
        proof {
            assert forall|a: u64| r.spec_balance(a) == 0 by {
                lemma_balance_absent(r.accounts@, a);
            }
        }
        r
    }

    /// Index of the row owned by `addr`, if any.
    fn find(&self, addr: u64) -> (r: Option<usize>)
        ensures
            match r {
                Some(i) => i < self.accounts@.len() && self.accounts@[i as int].owner == addr,
                None => forall|k: int|
                    0 <= k < self.accounts@.len() ==> self.accounts@[k].owner != addr,
            },
    {
        let mut k: usize = 0;
        while k < self.accounts.len()
            invariant
                k <= self.accounts@.len(),
                forall|j: int| 0 <= j < k ==> self.accounts@[j].owner != addr,
            decreases self.accounts@.len() - k,
        {
            if self.accounts[k].owner == addr {
                return Some(k);
            }
            k = k + 1;
        }
        None
    }

    /// Current balance of `addr`.
    pub fn balance(&self, addr: u64) -> (r: i128)
        requires
            self.wf(),
        ensures
            r == self.spec_balance(addr),
    {
        match self.find(addr) {
            Some(i) => {
                proof {
                    lemma_balance_at_index(self.accounts@, i as int);
                }
                self.accounts[i].balance
            },
            None => {
                proof {
                    lemma_balance_absent(self.accounts@, addr);
                }
                0
            },
        }
    }

    /// Creates `amount` new units on `to`'s account. The issuance cap is the
    /// balance type itself: the new total must still fit.
    pub fn mint(&mut self, to: u64, amount: i128)
        requires
            old(self).wf(),
            amount >= 0,
            old(self).total() + amount <= i128::MAX as int,
        ensures
            final(self).wf(),
            final(self).total() == old(self).total() + amount,
            final(self).spec_balance(to) == old(self).spec_balance(to) + amount,
            forall|a: u64|
                a != to ==> final(self).spec_balance(a) == old(self).spec_balance(a),
    {
        match self.find(to) {
            Some(i) => {
                proof {
                    lemma_balance_at_index(self.accounts@, i as int);
                    lemma_balance_le_sum(self.accounts@, to);
                    lemma_update_row(
                        self.accounts@,
                        i as int,
                        Account { owner: to, balance: (self.accounts@[i as int].balance + amount) as i128 },
                    );
                }
                let b = self.accounts[i].balance;
                self.accounts.set(i, Account { owner: to, balance: b + amount });
            },
            None => {
                proof {
                    lemma_balance_absent(self.accounts@, to);
                    lemma_push_row(self.accounts@, Account { owner: to, balance: amount });
                }
                self.accounts.push(Account { owner: to, balance: amount });
            },
        }
    }

    /// Moves `amount` from `from` to `to`. Fails, changing nothing, exactly
    /// when the amount is negative or `from` cannot cover it.
    pub fn transfer(&mut self, from: u64, to: u64, amount: i128) -> (r: Result<(), ContractError>)
        requires
            old(self).wf(),
        ensures
            final(self).wf(),
            r is Err <==> (amount < 0 || old(self).spec_balance(from) < amount),
            r is Err ==> *final(self) == *old(self) && r == Err::<(), ContractError>(
                ContractError::InsufficientEscrow,
            ),
            r is Ok ==> final(self).total() == old(self).total(),
            r is Ok ==> forall|a: u64|
                final(self).spec_balance(a) == old(self).spec_balance(a) + (
                if a == to {
                    amount as int
                } else {
                    0
                }) - (
                if a == from {
                    amount as int
                } else {
                    0
                }),
    {
        if amount < 0 {
            return Err(ContractError::InsufficientEscrow);
        }
        let from_bal = self.balance(from);
        if from_bal < amount {
            return Err(ContractError::InsufficientEscrow);
        }
        if amount == 0 || from == to {
            return Ok(());
        }
        // Debit the sender.
        let i = match self.find(from) {
            Some(i) => i,
            None => {
                // `from` has no row, so its balance is 0 and `amount` is 0;
                // that case returned above.
                proof {
                    lemma_balance_absent(self.accounts@, from);
                }
                return Err(ContractError::InsufficientEscrow);
            },
        };
        proof {
            lemma_balance_at_index(self.accounts@, i as int);
            lemma_update_row(
                self.accounts@,
                i as int,
                Account { owner: from, balance: (self.accounts@[i as int].balance - amount) as i128 },
            );
        }
        let b = self.accounts[i].balance;
        self.accounts.set(i, Account { owner: from, balance: b - amount });
        // Credit the receiver; the debited ledger's total bounds the credit.
        match self.find(to) {
            Some(j) => {
                proof {
                    lemma_balance_at_index(self.accounts@, j as int);
                    lemma_balance_le_sum(self.accounts@, to);
                    lemma_update_row(
                        self.accounts@,
                        j as int,
                        Account { owner: to, balance: (self.accounts@[j as int].balance + amount) as i128 },
                    );
                }
                let tb = self.accounts[j].balance;
                self.accounts.set(j, Account { owner: to, balance: tb + amount });
            },
            None => {
                proof {
                    lemma_balance_absent(self.accounts@, to);
                    lemma_push_row(self.accounts@, Account { owner: to, balance: amount });
                }
                self.accounts.push(Account { owner: to, balance: amount });
            },
        }
        Ok(())
    }
}

} // verus!

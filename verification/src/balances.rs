//! A keyed balance table: a map from [`Address`] to a non-negative token
//! balance, with lazy zero-default entries and an exact cached total.
//!
//! Both the Ledger's account table and each validator's delegator pool are
//! instances of this table. An absent key reads as a zero balance, so a
//! lazily created zero entry and no entry are observably the same.

use vstd::prelude::*;

use crate::sums::lemma_sum_elem_le;
use crate::sums::lemma_sum_nonneg;
use crate::sums::lemma_sum_push;
use crate::sums::lemma_sum_update;
use crate::sums::sum;
use crate::types::Address;
use crate::types::Coin;
use crate::types::Error;

verus! {

/// One keyed balance.
#[derive(Clone, Copy, PartialEq, Eq, Structural, Debug)]
pub struct BalanceEntry {
    pub address: Address,
    pub balance: u64,
}

/// A keyed balance table with an exact running total.
pub struct BalanceMap {
    pub entries: Vec<BalanceEntry>,
    pub total: u64,
}

impl BalanceMap {
    /// The balances as a sequence of mathematical integers.
    pub open spec fn balances(self) -> Seq<int> {
        self.entries@.map_values(|e: BalanceEntry| e.balance as int)
    }

    /// Whether an entry for `a` exists.
    pub open spec fn has_key(self, a: Address) -> bool {
        exists|i: int| 0 <= i < self.entries@.len() && self.entries@[i].address == a
    }

    /// The index of the entry for `a`, when one exists.
    pub open spec fn key_at(self, a: Address) -> int {
        choose|i: int| 0 <= i < self.entries@.len() && self.entries@[i].address == a
    }

    /// The balance of `a`: zero when no entry exists (lazy default).
    pub open spec fn spec_balance(self, a: Address) -> u64 {
        if self.has_key(a) {
            self.entries@[self.key_at(a)].balance
        } else {
            0
        }
    }

    /// Each address keys at most one entry.
    pub open spec fn unique_keys(self) -> bool {
        forall|i: int, j: int|
            0 <= i < j < self.entries@.len() ==> self.entries@[i].address
                != self.entries@[j].address
    }

    /// Well-formedness: unique keys, and the cached total is exactly the sum
    /// of all balances.
    pub open spec fn wf(self) -> bool {
        &&& self.unique_keys()
        &&& self.total as int == sum(self.balances())
    }

    /// The balance seq entries are non-negative (they are `u64` values).
    pub proof fn lemma_balances_nonneg(self)
        ensures
            forall|j: int| 0 <= j < self.balances().len() ==> self.balances()[j] >= 0,
    {
    }

    /// Under unique keys, any entry holding `a` is the entry `key_at(a)`.
    proof fn lemma_key_at_is(self, a: Address, i: int)
        requires
            self.unique_keys(),
            0 <= i < self.entries@.len(),
            self.entries@[i].address == a,
        ensures
            self.has_key(a),
            self.key_at(a) == i,
    {
        let j = self.key_at(a);
        assert(0 <= j < self.entries@.len() && self.entries@[j].address == a);
        if i < j {
            assert(self.entries@[i].address != self.entries@[j].address);
        } else if j < i {
            assert(self.entries@[j].address != self.entries@[i].address);
        }
    }

    /// Every balance is at most the table's total.
    pub proof fn lemma_balance_le_total(self, a: Address)
        requires
            self.wf(),
        ensures
            self.spec_balance(a) <= self.total,
    {
        self.lemma_balances_nonneg();
        if self.has_key(a) {
            let i = self.key_at(a);
            assert(self.balances()[i] == self.entries@[i].balance as int);
            lemma_sum_elem_le(self.balances(), i);
        } else {
            lemma_sum_nonneg(self.balances());
        }
    }

    /// An empty table: no entries, all balances zero.
    pub fn new() -> (r: BalanceMap)
        ensures
            r.wf(),
            r.entries@.len() == 0,
            r.total == 0,
            forall|a: Address| r.spec_balance(a) == 0,
    {
        BalanceMap { entries: Vec::new(), total: 0 }
    }

    /// The index of the entry for `a`, if one exists.
    fn find(&self, a: Address) -> (r: Option<usize>)
        ensures
            match r {
                Some(i) => 0 <= i < self.entries@.len() && self.entries@[i as int].address == a,
                None => !self.has_key(a),
            },
    {
        let n = self.entries.len();
        let mut k: usize = 0;
        while k < n
            invariant
                n == self.entries@.len(),
                0 <= k <= n,
                forall|j: int| 0 <= j < k ==> self.entries@[j].address != a,
            decreases n - k,
        {
            if self.entries[k].address == a {
                return Some(k);
            }
            k = k + 1;
        }
        None
    }

    /// The balance of `a` (zero when `a` has no entry).
    pub fn balance(&self, a: Address) -> (r: u64)
        requires
            self.wf(),
        ensures
            r == self.spec_balance(a),
    {
        match self.find(a) {
            Some(i) => {
                proof {
                    self.lemma_key_at_is(a, i as int);
                }
                self.entries[i].balance
            },
            None => 0,
        }
    }

    /// Increases the balance of `a` by `amount`, creating a zero entry first
    /// if `a` has none. Fails with [`Error::Overflow`], changing nothing,
    /// exactly when the new total would not be representable.
    pub fn add(&mut self, a: Address, amount: u64) -> (r: Result<(), Error>)
        requires
            old(self).wf(),
        ensures
            final (self).wf(),
            r is Ok <==> old(self).total + amount <= u64::MAX,
            r is Err ==> r == Err::<(), Error>(Error::Overflow) && *final (self) == *old(self),
            r is Ok ==> {
                &&& final (self).spec_balance(a) == old(self).spec_balance(a) + amount
                &&& forall|b: Address|
                    b != a ==> final (self).spec_balance(b) == old(self).spec_balance(b)
                &&& final (self).total == old(self).total + amount
            },
    {
        if amount > u64::MAX - self.total {
            return Err(Error::Overflow);
        }
        let ghost pre = *self;
        match self.find(a) {
            Some(i) => {
                proof {
                    pre.lemma_key_at_is(a, i as int);
                    pre.lemma_balances_nonneg();
                    lemma_sum_elem_le(pre.balances(), i as int);
                }
                let newbal = self.entries[i].balance + amount;
                self.entries.set(i, BalanceEntry { address: a, balance: newbal });
                self.total = self.total + amount;
                proof {
                    assert(self.balances() =~= pre.balances().update(
                        i as int,
                        newbal as int,
                    ));
                    lemma_sum_update(pre.balances(), i as int, newbal as int);
                    self.lemma_key_at_is(a, i as int);
                    assert forall|b: Address| b != a implies self.spec_balance(b)
                        == pre.spec_balance(b) by {
                        self.lemma_same_balance_unaffected(pre, b);
                    }
                }
            },
            None => {
                self.entries.push(BalanceEntry { address: a, balance: amount });
                self.total = self.total + amount;
                proof {
                    assert(self.balances() =~= pre.balances().push(amount as int));
                    lemma_sum_push(pre.balances(), amount as int);
                    let n = pre.entries@.len() as int;
                    self.lemma_key_at_is(a, n);
                    assert forall|b: Address| b != a implies self.spec_balance(b)
                        == pre.spec_balance(b) by {
                        if pre.has_key(b) {
                            let i = pre.key_at(b);
                            assert(self.entries@[i].address == b);
                            self.lemma_key_at_is(b, i);
                        } else {
                            assert(!self.has_key(b)) by {
                                if self.has_key(b) {
                                    let i = self.key_at(b);
                                    assert(i == n);
                                }
                            }
                        }
                    }
                }
            },
        }
        Ok(())
    }

    /// Removes `amount` from the balance of `a` and returns it as a coin.
    /// Fails with [`Error::InsufficientBalance`], changing nothing, exactly
    /// when the balance of `a` is smaller than `amount`.
    pub fn take(&mut self, a: Address, amount: u64) -> (r: Result<Coin, Error>)
        requires
            old(self).wf(),
        ensures
            final (self).wf(),
            r is Ok <==> old(self).spec_balance(a) >= amount,
            r is Err ==> r == Err::<Coin, Error>(Error::InsufficientBalance) && *final (self)
                == *old(self),
            r is Ok ==> {
                &&& r == Ok::<Coin, Error>(Coin { amount })
                &&& final (self).spec_balance(a) == old(self).spec_balance(a) - amount
                &&& forall|b: Address|
                    b != a ==> final (self).spec_balance(b) == old(self).spec_balance(b)
                &&& final (self).total == old(self).total - amount
            },
    {
        let ghost pre = *self;
        match self.find(a) {
            Some(i) => {
                proof {
                    pre.lemma_key_at_is(a, i as int);
                }
                let bal = self.entries[i].balance;
                if bal < amount {
                    return Err(Error::InsufficientBalance);
                }
                let newbal = bal - amount;
                self.entries.set(i, BalanceEntry { address: a, balance: newbal });
                proof {
                    pre.lemma_balances_nonneg();
                    lemma_sum_elem_le(pre.balances(), i as int);
                }
                self.total = self.total - amount;
                proof {
                    assert(self.balances() =~= pre.balances().update(
                        i as int,
                        newbal as int,
                    ));
                    lemma_sum_update(pre.balances(), i as int, newbal as int);
                    self.lemma_key_at_is(a, i as int);
                    assert forall|b: Address| b != a implies self.spec_balance(b)
                        == pre.spec_balance(b) by {
                        self.lemma_same_balance_unaffected(pre, b);
                    }
                }
                Ok(Coin { amount })
            },
            None => {
                if amount == 0 {
                    Ok(Coin { amount })
                } else {
                    Err(Error::InsufficientBalance)
                }
            },
        }
    }

    /// After an operation that kept every entry's address and touched only
    /// entries keyed by addresses other than `b`, the balance of `b` is
    /// unchanged.
    proof fn lemma_same_balance_unaffected(self, pre: BalanceMap, b: Address)
        requires
            pre.unique_keys(),
            self.unique_keys(),
            self.entries@.len() == pre.entries@.len(),
            forall|j: int|
                0 <= j < pre.entries@.len() ==> self.entries@[j].address
                    == pre.entries@[j].address,
            forall|j: int|
                0 <= j < pre.entries@.len() && pre.entries@[j].address == b
                    ==> self.entries@[j].balance == pre.entries@[j].balance,
        ensures
            self.spec_balance(b) == pre.spec_balance(b),
    {
        if pre.has_key(b) {
            let i = pre.key_at(b);
            assert(self.entries@[i].address == b);
            self.lemma_key_at_is(b, i);
        } else {
            assert(!self.has_key(b)) by {
                if self.has_key(b) {
                    let i = self.key_at(b);
                    assert(pre.entries@[i].address == b);
                }
            }
        }
    }
}

} // verus!

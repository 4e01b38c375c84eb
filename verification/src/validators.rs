//! The validator pool: a map from validator [`Address`] to that validator's
//! delegator pool, with an exact cached grand total of all staked balances.
//!
//! A validator's aggregate stake is the sum of its delegator pool's balances;
//! that sum is the exact quantity reported as the validator's voting power.
//! Block rewards deposited into the pool as a whole are held as an
//! undistributed pool-level increment (the explicit attribution policy of
//! this design): they raise total supply without being attributed to any
//! delegator until a distribution rule outside this module assigns them.

use vstd::prelude::*;

use crate::balances::BalanceMap;
use crate::sums::lemma_sum_elem_le;
use crate::sums::lemma_sum_nonneg;
use crate::sums::lemma_sum_push;
use crate::sums::lemma_sum_update;
use crate::sums::sum;
use crate::types::Address;
use crate::types::Coin;
use crate::types::Error;

verus! {

/// One validator and its delegator pool.
pub struct ValidatorEntry {
    pub address: Address,
    pub delegators: BalanceMap,
}

/// The pool of all validators.
pub struct ValidatorPool {
    pub validators: Vec<ValidatorEntry>,
    /// Cached sum of every validator's aggregate staked balance.
    pub total_staked: u64,
    /// Block rewards deposited into the pool and not yet attributed to any
    /// delegator.
    pub undistributed: u64,
}

impl ValidatorPool {
    /// Each validator's aggregate staked balance, as integers.
    pub open spec fn pool_totals(self) -> Seq<int> {
        self.validators@.map_values(|v: ValidatorEntry| sum(v.delegators.balances()))
    }

    /// Whether an entry for validator `v` exists.
    pub open spec fn has_validator(self, v: Address) -> bool {
        exists|i: int| 0 <= i < self.validators@.len() && self.validators@[i].address == v
    }

    /// The index of the entry for validator `v`, when one exists.
    pub open spec fn validator_at(self, v: Address) -> int {
        choose|i: int| 0 <= i < self.validators@.len() && self.validators@[i].address == v
    }

    /// The aggregate staked balance of validator `v`: the sum over its
    /// delegators, and zero when `v` has no entry (implicit empty pool).
    pub open spec fn spec_validator_balance(self, v: Address) -> int {
        if self.has_validator(v) {
            sum(self.validators@[self.validator_at(v)].delegators.balances())
        } else {
            0
        }
    }

    /// The staked balance of delegator `d` under validator `v`; zero when
    /// either entry is absent.
    pub open spec fn spec_delegator_balance(self, v: Address, d: Address) -> u64 {
        if self.has_validator(v) {
            self.validators@[self.validator_at(v)].delegators.spec_balance(d)
        } else {
            0
        }
    }

    /// Each validator address keys at most one entry.
    pub open spec fn unique_keys(self) -> bool {
        forall|i: int, j: int|
            0 <= i < j < self.validators@.len() ==> self.validators@[i].address
                != self.validators@[j].address
    }

    /// Well-formedness: unique validator keys, every delegator pool
    /// well-formed, and the cached grand total is exactly the sum of all
    /// validators' aggregates.
    pub open spec fn wf(self) -> bool {
        &&& self.unique_keys()
        &&& forall|i: int|
            0 <= i < self.validators@.len() ==> (#[trigger] self.validators@[i]).delegators.wf()
        &&& self.total_staked as int == sum(self.pool_totals())
    }

    /// Each validator's aggregate is non-negative.
    proof fn lemma_pool_totals_nonneg(self)
        ensures
            forall|j: int| 0 <= j < self.pool_totals().len() ==> self.pool_totals()[j] >= 0,
    {
        assert forall|j: int| 0 <= j < self.pool_totals().len() implies self.pool_totals()[j]
            >= 0 by {
            self.validators@[j].delegators.lemma_balances_nonneg();
            lemma_sum_nonneg(self.validators@[j].delegators.balances());
        }
    }

    /// Under unique keys, any entry holding `v` is the entry `validator_at(v)`.
    proof fn lemma_validator_at_is(self, v: Address, i: int)
        requires
            self.unique_keys(),
            0 <= i < self.validators@.len(),
            self.validators@[i].address == v,
        ensures
            self.has_validator(v),
            self.validator_at(v) == i,
    {
        let j = self.validator_at(v);
        assert(0 <= j < self.validators@.len() && self.validators@[j].address == v);
        if i < j {
            assert(self.validators@[i].address != self.validators@[j].address);
        } else if j < i {
            assert(self.validators@[j].address != self.validators@[i].address);
        }
    }

    /// An empty pool: no validators, no stake, no undistributed rewards.
    pub fn new() -> (r: ValidatorPool)
        ensures
            r.wf(),
            r.validators@.len() == 0,
            r.total_staked == 0,
            r.undistributed == 0,
            forall|v: Address| r.spec_validator_balance(v) == 0,
            forall|v: Address, d: Address| r.spec_delegator_balance(v, d) == 0,
    {
        ValidatorPool { validators: Vec::new(), total_staked: 0, undistributed: 0 }
    }

    /// The index of the entry for validator `v`, if one exists.
    fn find(&self, v: Address) -> (r: Option<usize>)
        ensures
            match r {
                Some(i) => 0 <= i < self.validators@.len() && self.validators@[i as int].address
                    == v,
                None => !self.has_validator(v),
            },
    {
        let n = self.validators.len();
        let mut k: usize = 0;
        while k < n
            invariant
                n == self.validators@.len(),
                0 <= k <= n,
                forall|j: int| 0 <= j < k ==> self.validators@[j].address != v,
            decreases n - k,
        {
            if self.validators[k].address == v {
                return Some(k);
            }
            k = k + 1;
        }
        None
    }

    /// The aggregate staked balance of validator `v`; a validator with no
    /// recorded entries reads as an implicit empty pool with balance zero.
    pub fn balance_of(&self, v: Address) -> (r: u64)
        requires
            self.wf(),
        ensures
            r == self.spec_validator_balance(v),
    {
        match self.find(v) {
            Some(i) => {
                proof {
                    self.lemma_validator_at_is(v, i as int);
                }
                self.validators[i].delegators.total
            },
            None => 0,
        }
    }

    /// Deposits a freshly minted coin into the pool as a whole. The inflow
    /// is held as the pool-level undistributed increment; no validator's
    /// aggregate and no delegator's balance changes.
    pub fn give(&mut self, coin: Coin)
        requires
            old(self).wf(),
            old(self).undistributed + coin.amount <= u64::MAX,
        ensures
            final (self).wf(),
            final (self).undistributed == old(self).undistributed + coin.amount,
            final (self).validators@ == old(self).validators@,
            final (self).total_staked == old(self).total_staked,
    {
        self.undistributed = self.undistributed + coin.amount;
    }

    /// Deposits a coin into delegator `d`'s balance under validator `v`,
    /// creating the validator entry and the delegator entry if absent.
    /// The caller must have room for the deposit in the grand total; every
    /// transfer from a well-formed module state does.
    pub fn give_to(&mut self, v: Address, d: Address, coin: Coin)
        requires
            old(self).wf(),
            old(self).total_staked + coin.amount <= u64::MAX,
        ensures
            final (self).wf(),
            final (self).total_staked == old(self).total_staked + coin.amount,
            final (self).undistributed == old(self).undistributed,
            final (self).spec_validator_balance(v) == old(self).spec_validator_balance(v)
                + coin.amount,
            forall|v2: Address|
                v2 != v ==> final (self).spec_validator_balance(v2) == old(self).spec_validator_balance(v2),
            final (self).spec_delegator_balance(v, d) == old(self).spec_delegator_balance(v, d)
                + coin.amount,
            forall|v2: Address, d2: Address|
                !(v2 == v && d2 == d) ==> final (self).spec_delegator_balance(v2, d2) == old(self).spec_delegator_balance(v2, d2),
    {
        let ghost pre = *self;
        match self.find(v) {
            Some(i) => {
                proof {
                    pre.lemma_validator_at_is(v, i as int);
                    pre.lemma_pool_totals_nonneg();
                    lemma_sum_elem_le(pre.pool_totals(), i as int);
                }
                let mut ve = self.validators.remove(i);
                let res = ve.delegators.add(d, coin.amount);
                self.validators.insert(i, ve);
                proof {
                    assert(self.validators@ =~= pre.validators@.update(
                        i as int,
                        self.validators@[i as int],
                    ));
                }
                match res {
                    Ok(()) => {},
                    Err(_) => {
                        // the delegator pool's total is bounded by the grand
                        // total, which has room by the precondition
                        proof {
                            assert(false);
                        }
                    },
                }
                self.total_staked = self.total_staked + coin.amount;
                proof {
                    assert(self.pool_totals() =~= pre.pool_totals().update(
                        i as int,
                        pre.pool_totals()[i as int] + coin.amount,
                    ));
                    lemma_sum_update(
                        pre.pool_totals(),
                        i as int,
                        pre.pool_totals()[i as int] + coin.amount,
                    );
                    self.lemma_validator_at_is(v, i as int);
                    self.lemma_others_unchanged(pre, v);
                }
            },
            None => {
                let mut dp = BalanceMap::new();
                let res = dp.add(d, coin.amount);
                match res {
                    Ok(()) => {},
                    Err(_) => {
                        // a fresh pool's total is zero: no overflow
                        proof {
                            assert(false);
                        }
                    },
                }
                self.validators.push(ValidatorEntry { address: v, delegators: dp });
                self.total_staked = self.total_staked + coin.amount;
                proof {
                    let n = pre.validators@.len() as int;
                    assert(self.pool_totals() =~= pre.pool_totals().push(coin.amount as int));
                    lemma_sum_push(pre.pool_totals(), coin.amount as int);
                    self.lemma_validator_at_is(v, n);
                    assert forall|v2: Address| v2 != v implies self.has_validator(v2)
                        == pre.has_validator(v2) by {
                        if self.has_validator(v2) {
                            let j = self.validator_at(v2);
                            assert(j < n || self.validators@[j].address == v);
                        }
                        if pre.has_validator(v2) {
                            let j = pre.validator_at(v2);
                            assert(self.validators@[j].address == v2);
                        }
                    }
                    self.lemma_others_unchanged(pre, v);
                }
            },
        }
    }

    /// After an operation that kept every other validator's entry in place,
    /// every other validator's aggregate and delegator balances are
    /// unchanged.
    proof fn lemma_others_unchanged(self, pre: ValidatorPool, v: Address)
        requires
            pre.unique_keys(),
            self.unique_keys(),
            pre.validators@.len() <= self.validators@.len(),
            forall|j: int|
                0 <= j < pre.validators@.len() && pre.validators@[j].address != v
                    ==> self.validators@[j] == pre.validators@[j],
            forall|j: int|
                0 <= j < pre.validators@.len() ==> self.validators@[j].address
                    == pre.validators@[j].address,
            forall|j: int|
                pre.validators@.len() <= j < self.validators@.len() ==> self.validators@[j].address
                    == v,
        ensures
            forall|v2: Address|
                v2 != v ==> self.spec_validator_balance(v2) == pre.spec_validator_balance(v2),
            forall|v2: Address, d2: Address|
                v2 != v ==> self.spec_delegator_balance(v2, d2) == pre.spec_delegator_balance(
                    v2,
                    d2,
                ),
    {
        assert forall|v2: Address| v2 != v implies self.spec_validator_balance(v2)
            == pre.spec_validator_balance(v2) && (forall|d2: Address|
            self.spec_delegator_balance(v2, d2) == pre.spec_delegator_balance(v2, d2)) by {
            if pre.has_validator(v2) {
                let i = pre.validator_at(v2);
                assert(self.validators@[i].address == v2);
                self.lemma_validator_at_is(v2, i);
                assert(self.validators@[i] == pre.validators@[i]);
            } else {
                assert(!self.has_validator(v2)) by {
                    if self.has_validator(v2) {
                        let i = self.validator_at(v2);
                        assert(0 <= i < self.validators@.len());
                        if i < pre.validators@.len() {
                            assert(pre.validators@[i].address == v2);
                        } else {
                            assert(self.validators@[i].address == v);
                        }
                    }
                }
            }
        }
    }
}

} // verus!

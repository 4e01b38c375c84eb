//! The staking module itself: the last observed block height, the Ledger's
//! balance table, the validator pool, and the unbonding queue, with the
//! three operations the surrounding application invokes — `delegate`,
//! `begin_block` and `end_block`.
//!
//! Total supply — the Ledger total, plus every validator's aggregate stake,
//! plus the undistributed reward increment, plus the coins pending in the
//! unbonding queue — changes only in `begin_block`, and there by exactly the
//! minted block reward. Every operation is atomic: on failure nothing is
//! changed.

use vstd::prelude::*;

use crate::balances::BalanceMap;
use crate::queue::credited;
use crate::queue::drain_count;
use crate::queue::Unbond;
use crate::queue::UnbondingQueue;
use crate::sums::lemma_sum_elem_le;
use crate::sums::sum;
use crate::types::Address;
use crate::types::BeginBlockCtx;
use crate::types::Coin;
use crate::types::Error;
use crate::types::Signer;
use crate::types::VotingPowerUpdate;
use crate::validators::ValidatorPool;

verus! {

/// The fixed block reward, minted once per block with no debit from any
/// account.
pub const BLOCK_REWARD: u64 = 10;

/// The staking state proper: the validator pool and the unbonding queue.
pub struct Staking {
    pub validators: ValidatorPool,
    pub unbonding_queue: UnbondingQueue,
}

impl Staking {
    /// Well-formedness of both components.
    pub open spec fn wf(self) -> bool {
        &&& self.validators.wf()
        &&& self.unbonding_queue.wf()
    }
}

/// The application state the staking module owns: the last observed block
/// height, the Ledger's balance table (`simp`), and the staking state.
pub struct AppWithStaking {
    pub height: u64,
    pub simp: BalanceMap,
    pub staking: Staking,
}

impl AppWithStaking {
    /// The total token supply: Ledger balances, staked balances, the
    /// undistributed reward increment, and coins pending in the unbonding
    /// queue.
    pub open spec fn spec_supply(self) -> int {
        sum(self.simp.balances()) + sum(self.staking.validators.pool_totals())
            + self.staking.validators.undistributed + sum(self.staking.unbonding_queue.amounts())
    }

    /// Well-formedness: both components well-formed and the total supply
    /// representable, so transfers inside the module can never overflow.
    pub open spec fn wf(self) -> bool {
        &&& self.simp.wf()
        &&& self.staking.wf()
        &&& self.spec_supply() <= u64::MAX
    }

    /// The genesis state: height zero, no balances, no validators, an empty
    /// queue.
    pub fn new() -> (r: AppWithStaking)
        ensures
            r.wf(),
            r.height == 0,
            r.spec_supply() == 0,
            forall|a: Address| r.simp.spec_balance(a) == 0,
            r.staking.validators.validators@.len() == 0,
            forall|v: Address| r.staking.validators.spec_validator_balance(v) == 0,
            forall|v: Address, d: Address| r.staking.validators.spec_delegator_balance(v, d) == 0,
            r.staking.validators.undistributed == 0,
            r.staking.unbonding_queue.items@.len() == 0,
    {
        AppWithStaking {
            height: 0,
            simp: BalanceMap::new(),
            staking: Staking {
                validators: ValidatorPool::new(),
                unbonding_queue: UnbondingQueue::new(),
            },
        }
    }

    /// Moves `amount` from the signer's Ledger balance into the signer's
    /// staked balance under `validator_address`, creating the validator and
    /// delegator entries if absent.
    ///
    /// Fails with `Unauthenticated` when no signer context is present, with
    /// `Unsigned` when the context carries no address, and with
    /// `InsufficientBalance` when the signer's Ledger balance is smaller
    /// than `amount` — each failure if and only if its condition holds, and
    /// each leaves the state unchanged. On success the transfer is pure:
    /// total supply is unchanged.
    pub fn delegate(&mut self, signer: Option<Signer>, validator_address: Address, amount: u64) -> (r:
        Result<(), Error>)
        requires
            old(self).wf(),
        ensures
            final (self).wf(),
            final (self).spec_supply() == old(self).spec_supply(),
            final (self).height == old(self).height,
            final (self).staking.unbonding_queue.items@ == old(self).staking.unbonding_queue.items@,
            final (self).staking.validators.undistributed == old(self).staking.validators.undistributed,
            match signer {
                None => r == Err::<(), Error>(Error::Unauthenticated) && *final (self) == *old(self),
                Some(s) => match s.signer {
                    None => r == Err::<(), Error>(Error::Unsigned) && *final (self) == *old(self),
                    Some(d) => if old(self).simp.spec_balance(d) < amount {
                        r == Err::<(), Error>(Error::InsufficientBalance) && *final (self) == *old(self)
                    } else {
                        &&& r == Ok::<(), Error>(())
                        &&& final (self).simp.total == old(self).simp.total - amount
                        &&& final (self).staking.validators.total_staked == old(
                            self,
                        ).staking.validators.total_staked + amount
                        &&& final (self).simp.spec_balance(d) == old(self).simp.spec_balance(d)
                            - amount
                        &&& forall|b: Address|
                            b != d ==> final (self).simp.spec_balance(b) == old(self).simp.spec_balance(b)
                        &&& final (self).staking.validators.spec_delegator_balance(
                            validator_address,
                            d,
                        ) == old(self).staking.validators.spec_delegator_balance(
                            validator_address,
                            d,
                        ) + amount
                        &&& forall|v2: Address, d2: Address|
                            !(v2 == validator_address && d2 == d) ==> final (self).staking.validators.spec_delegator_balance(v2, d2) == old(self).staking.validators.spec_delegator_balance(v2, d2)
                        &&& final (self).staking.validators.spec_validator_balance(
                            validator_address,
                        ) == old(self).staking.validators.spec_validator_balance(validator_address)
                            + amount
                        &&& forall|v2: Address|
                            v2 != validator_address ==> final (self).staking.validators.spec_validator_balance(v2) == old(self).staking.validators.spec_validator_balance(v2)
                    },
                },
            },
    {
        let signer_addr = match signer {
            None => {
                return Err(Error::Unauthenticated);
            },
            Some(s) => match s.signer {
                None => {
                    return Err(Error::Unsigned);
                },
                Some(a) => a,
            },
        };
        let ghost pre = *self;
        let coins = match self.simp.take(signer_addr, amount) {
            Err(e) => {
                return Err(e);
            },
            Ok(c) => c,
        };
        proof {
            pre.simp.lemma_balance_le_total(signer_addr);
        }
        self.staking.validators.give_to(validator_address, signer_addr, coins);
        Ok(())
    }

    /// Records the new block height and mints the fixed block reward into
    /// the validator pool — the one point in the system that increases total
    /// supply. If minting would make the supply unrepresentable, fails with
    /// `Overflow` and changes nothing.
    pub fn begin_block(&mut self, ctx: &BeginBlockCtx) -> (r: Result<(), Error>)
        requires
            old(self).wf(),
        ensures
            final (self).wf(),
            old(self).spec_supply() + BLOCK_REWARD <= u64::MAX ==> {
                &&& r == Ok::<(), Error>(())
                &&& final (self).height == ctx.height
                &&& final (self).staking.validators.undistributed == old(self).staking.validators.undistributed + BLOCK_REWARD
                &&& final (self).spec_supply() == old(self).spec_supply() + BLOCK_REWARD
                &&& final (self).simp == old(self).simp
                &&& final (self).staking.validators.validators@ == old(self).staking.validators.validators@
                &&& final (self).staking.validators.total_staked == old(self).staking.validators.total_staked
                &&& final (self).staking.unbonding_queue == old(self).staking.unbonding_queue
            },
            old(self).spec_supply() + BLOCK_REWARD > u64::MAX ==> r == Err::<(), Error>(
                Error::Overflow,
            ) && *final (self) == *old(self),
    {
        let supply_a = self.simp.total + self.staking.validators.total_staked;
        let supply_b = supply_a + self.staking.validators.undistributed;
        let supply = supply_b + self.staking.unbonding_queue.total_coins;
        if BLOCK_REWARD <= u64::MAX - supply {
            self.height = ctx.height;
            self.staking.validators.give(Coin { amount: BLOCK_REWARD });
            Ok(())
        } else {
            Err(Error::Overflow)
        }
    }

    /// Pays out every matured pending unbond: pops the front of the queue
    /// while its maturity height has been reached, credits each popped coin
    /// back to its delegator's Ledger balance, and reports the affected
    /// validator's aggregate balance as its new voting power. The returned
    /// reports, in drain order, are the output to the consensus engine.
    ///
    /// Exactly the maximal matured front-prefix of the queue is paid out,
    /// and nothing beyond the first unmatured entry; the payouts are pure
    /// transfers, so total supply is unchanged. The drain never fails.
    pub fn end_block(&mut self) -> (r: Result<Vec<VotingPowerUpdate>, Error>)
        requires
            old(self).wf(),
        ensures
            final (self).wf(),
            final (self).spec_supply() == old(self).spec_supply(),
            final (self).height == old(self).height,
            final (self).staking.validators == old(self).staking.validators,
            final (self).staking.unbonding_queue.items@ == old(self).staking.unbonding_queue.items@.subrange(
                drain_count(old(self).staking.unbonding_queue.items@, old(self).height) as int,
                old(self).staking.unbonding_queue.items@.len() as int,
            ),
            forall|a: Address|
                final (self).simp.spec_balance(a) as int == old(self).simp.spec_balance(a)
                    + credited(
                    old(self).staking.unbonding_queue.items@,
                    drain_count(old(self).staking.unbonding_queue.items@, old(self).height) as int,
                    a,
                ),
            match r {
                Ok(ups) => {
                    let q0 = old(self).staking.unbonding_queue.items@;
                    let n = drain_count(q0, old(self).height) as int;
                    &&& ups@.len() == n
                    &&& forall|i: int|
                        0 <= i < n ==> (#[trigger] ups@[i]).validator_address
                            == q0[i].validator_address && ups@[i].power as int == old(self).staking.validators.spec_validator_balance(q0[i].validator_address)
                },
                Err(_) => false,
            },
    {
        let ghost s0 = *self;
        let ghost q0 = self.staking.unbonding_queue.items@;
        let mut updates: Vec<VotingPowerUpdate> = Vec::new();
        let ghost mut k: int = 0;
        loop
            invariant
                self.simp.wf(),
                self.staking.validators.wf(),
                self.staking.unbonding_queue.wf(),
                self.staking.validators == s0.staking.validators,
                self.height == s0.height,
                s0.wf(),
                q0 == s0.staking.unbonding_queue.items@,
                0 <= k <= q0.len(),
                self.staking.unbonding_queue.items@ == q0.subrange(k, q0.len() as int),
                drain_count(q0, s0.height) == k + drain_count(
                    self.staking.unbonding_queue.items@,
                    s0.height,
                ),
                updates@.len() == k,
                forall|i: int|
                    0 <= i < k ==> (#[trigger] updates@[i]).validator_address
                        == q0[i].validator_address && updates@[i].power as int
                        == s0.staking.validators.spec_validator_balance(q0[i].validator_address),
                forall|a: Address|
                    self.simp.spec_balance(a) as int == s0.simp.spec_balance(a) + credited(
                        q0,
                        k,
                        a,
                    ),
                self.spec_supply() == s0.spec_supply(),
            ensures
                drain_count(self.staking.unbonding_queue.items@, s0.height) == 0,
            decreases q0.len() - k,
        {
            let front = self.staking.unbonding_queue.front();
            match front {
                None => {
                    break;
                },
                Some(u) => {
                    if u.maturity_height <= self.height {
                        let ghost cur = self.staking.unbonding_queue.items@;
                        proof {
                            lemma_sum_elem_le(self.staking.unbonding_queue.amounts(), 0);
                        }
                        let popped = self.staking.unbonding_queue.pop_front();
                        proof {
                            assert(self.staking.unbonding_queue.items@ =~= q0.subrange(
                                k + 1,
                                q0.len() as int,
                            ));
                            assert(drain_count(cur, s0.height) == 1 + drain_count(
                                cur.drop_first(),
                                s0.height,
                            ));
                        }
                        let res = self.simp.add(u.delegator_address, u.coin.amount);
                        match res {
                            Ok(()) => {},
                            Err(_) => {
                                // the popped coin was counted in the supply,
                                // which is representable: no overflow
                                proof {
                                    assert(false);
                                }
                            },
                        }
                        let power = self.staking.validators.balance_of(u.validator_address);
                        updates.push(
                            VotingPowerUpdate { validator_address: u.validator_address, power },
                        );
                        proof {
                            k = k + 1;
                            assert(q0[k - 1] == u);
                        }
                    } else {
                        break;
                    }
                },
            }
        }
        proof {
            assert(k == drain_count(q0, s0.height));
        }
        Ok(updates)
    }

    /// Schedules a pending unbond at the back of the queue. The user-facing
    /// operation that removes the stake and computes the maturity height is
    /// outside this module; whatever schedules an unbond must keep the
    /// queue's non-decreasing-maturity invariant and leave room for the
    /// entry's coin in the total supply.
    pub fn push_unbond(&mut self, unbond: Unbond)
        requires
            old(self).wf(),
            old(self).staking.unbonding_queue.items@.len() > 0 ==> old(self).staking.unbonding_queue.items@.last().maturity_height <= unbond.maturity_height,
            old(self).spec_supply() + unbond.coin.amount <= u64::MAX,
        ensures
            final (self).wf(),
            final (self).staking.unbonding_queue.items@ == old(self).staking.unbonding_queue.items@.push(unbond),
            final (self).spec_supply() == old(self).spec_supply() + unbond.coin.amount,
            final (self).height == old(self).height,
            final (self).simp == old(self).simp,
            final (self).staking.validators == old(self).staking.validators,
    {
        self.staking.unbonding_queue.push_back(unbond);
    }
}

} // verus!

//! The unbonding queue: a FIFO sequence of pending withdrawal records,
//! ordered by non-decreasing maturity height, with an exact cached total of
//! the coins it holds.
//!
//! The ordering invariant is what lets the end-of-block drain pay out the
//! matured entries by inspecting only the front of the queue.

use vstd::prelude::*;

use crate::sums::lemma_sum_elem_le;
use crate::sums::lemma_sum_push;
use crate::sums::lemma_sum_remove;
use crate::sums::sum;
use crate::types::Address;
use crate::types::Coin;

verus! {

/// An immutable promise of a future payout: when the chain reaches
/// `maturity_height`, `coin` is returned to `delegator_address`'s Ledger
/// balance and `validator_address`'s voting power is re-reported.
#[derive(Clone, Copy, PartialEq, Eq, Structural, Debug)]
pub struct Unbond {
    pub coin: Coin,
    pub delegator_address: Address,
    pub validator_address: Address,
    pub maturity_height: u64,
}

/// The FIFO queue of pending unbonds.
pub struct UnbondingQueue {
    pub items: Vec<Unbond>,
    /// Cached sum of the coin amounts of all pending unbonds.
    pub total_coins: u64,
}

/// Whether maturity heights are non-decreasing front-to-back.
pub open spec fn sorted_by_maturity(s: Seq<Unbond>) -> bool {
    forall|i: int, j: int|
        0 <= i <= j < s.len() ==> #[trigger] s[i].maturity_height <= #[trigger] s[j].maturity_height
}

/// The number of entries the end-of-block drain pays out at height `h`: the
/// length of the front run of entries with `maturity_height <= h`.
pub open spec fn drain_count(s: Seq<Unbond>, h: u64) -> nat
    decreases s.len(),
{
    if s.len() == 0 || s[0].maturity_height > h {
        0
    } else {
        1 + drain_count(s.drop_first(), h)
    }
}

/// The coin amount that the first `n` entries pay to address `a`.
pub open spec fn credited(s: Seq<Unbond>, n: int, a: Address) -> int
    decreases n,
{
    if n <= 0 {
        0
    } else {
        credited(s, n - 1, a) + if s[n - 1].delegator_address == a {
            s[n - 1].coin.amount as int
        } else {
            0
        }
    }
}

impl UnbondingQueue {
    /// The pending coin amounts as a sequence of mathematical integers.
    pub open spec fn amounts(self) -> Seq<int> {
        self.items@.map_values(|u: Unbond| u.coin.amount as int)
    }

    /// Well-formedness: maturities non-decreasing front-to-back, and the
    /// cached total is exactly the sum of the pending coin amounts.
    pub open spec fn wf(self) -> bool {
        &&& sorted_by_maturity(self.items@)
        &&& self.total_coins as int == sum(self.amounts())
    }

    /// An empty queue.
    pub fn new() -> (r: UnbondingQueue)
        ensures
            r.wf(),
            r.items@.len() == 0,
            r.total_coins == 0,
    {
        UnbondingQueue { items: Vec::new(), total_coins: 0 }
    }

    /// The front entry, if any, without removing it.
    pub fn front(&self) -> (r: Option<Unbond>)
        ensures
            r == if self.items@.len() == 0 {
                None::<Unbond>
            } else {
                Some(self.items@[0])
            },
    {
        if self.items.len() == 0 {
            None
        } else {
            Some(self.items[0])
        }
    }

    /// Removes and returns the front entry, if any.
    pub fn pop_front(&mut self) -> (r: Option<Unbond>)
        requires
            old(self).wf(),
        ensures
            final (self).wf(),
            old(self).items@.len() == 0 ==> r == None::<Unbond> && *final (self) == *old(self),
            old(self).items@.len() > 0 ==> {
                &&& r == Some(old(self).items@[0])
                &&& final (self).items@ == old(self).items@.drop_first()
                &&& final (self).total_coins == old(self).total_coins - old(self).items@[0].coin.amount
            },
    {
        if self.items.len() == 0 {
            return None;
        }
        let ghost pre = *self;
        let u = self.items.remove(0);
        proof {
            assert(self.amounts() =~= pre.amounts().remove(0));
            lemma_sum_remove(pre.amounts(), 0);
            lemma_sum_elem_le(pre.amounts(), 0);
            assert(self.items@ =~= pre.items@.drop_first());
        }
        self.total_coins = self.total_coins - u.coin.amount;
        Some(u)
    }

    /// Appends an entry at the back. The caller must keep the maturity
    /// ordering (the contract of whatever operation schedules an unbond) and
    /// must have room for the entry's coin in the cached total.
    pub fn push_back(&mut self, u: Unbond)
        requires
            old(self).wf(),
            old(self).items@.len() > 0 ==> old(self).items@.last().maturity_height
                <= u.maturity_height,
            old(self).total_coins + u.coin.amount <= u64::MAX,
        ensures
            final (self).wf(),
            final (self).items@ == old(self).items@.push(u),
            final (self).total_coins == old(self).total_coins + u.coin.amount,
    {
        let ghost pre = *self;
        self.items.push(u);
        self.total_coins = self.total_coins + u.coin.amount;
        proof {
            assert(self.amounts() =~= pre.amounts().push(u.coin.amount as int));
            lemma_sum_push(pre.amounts(), u.coin.amount as int);
        }
    }
}

/// The drain at height `h` pays out exactly the maximal matured front-prefix
/// of a queue with the ordering invariant: every entry before `drain_count`
/// is matured, and every entry from `drain_count` on — beginning with the
/// first unmatured entry — is not.
pub proof fn lemma_drain_maximal(s: Seq<Unbond>, h: u64)
    requires
        sorted_by_maturity(s),
    ensures
        drain_count(s, h) <= s.len(),
        forall|i: int| 0 <= i < drain_count(s, h) ==> s[i].maturity_height <= h,
        forall|i: int| drain_count(s, h) <= i < s.len() ==> s[i].maturity_height > h,
    decreases s.len(),
{
    if s.len() == 0 || s[0].maturity_height > h {
    } else {
        let t = s.drop_first();
        assert(sorted_by_maturity(t)) by {
            assert forall|i: int, j: int| 0 <= i <= j < t.len() implies t[i].maturity_height
                <= t[j].maturity_height by {
                assert(t[i] == s[i + 1] && t[j] == s[j + 1]);
            }
        }
        lemma_drain_maximal(t, h);
        assert forall|i: int| 0 <= i < drain_count(s, h) implies s[i].maturity_height <= h by {
            if i > 0 {
                assert(t[i - 1] == s[i]);
            }
        }
        assert forall|i: int| drain_count(s, h) <= i < s.len() implies s[i].maturity_height
            > h by {
            assert(t[i - 1] == s[i]);
        }
    }
}

/// After a drain at height `h`, a second drain at the same height pays out
/// nothing: the remaining queue's drain count is zero.
pub proof fn lemma_drain_idempotent(s: Seq<Unbond>, h: u64)
    requires
        sorted_by_maturity(s),
    ensures
        drain_count(s.subrange(drain_count(s, h) as int, s.len() as int), h) == 0,
{
    lemma_drain_maximal(s, h);
    let n = drain_count(s, h) as int;
    let rest = s.subrange(n, s.len() as int);
    if rest.len() > 0 {
        assert(rest[0] == s[n]);
        assert(s[n].maturity_height > h);
    }
}

} // verus!

//! A verified staking module for a deterministic blockchain state machine.
//!
//! The module manages delegation of a native token to validators, tracks each
//! validator's aggregate stake (its consensus voting power), and processes
//! time-delayed withdrawal of delegated funds through an unbonding queue.
//! The surrounding runtime (signer authentication, the consensus engine, and
//! the persistent store) hands plain values in and takes plain values out.

mod balances;
mod queue;
mod staking;
mod sums;
mod types;
mod validators;

pub use balances::BalanceEntry;
pub use balances::BalanceMap;
pub use queue::credited;
pub use queue::drain_count;
pub use queue::lemma_drain_idempotent;
pub use queue::lemma_drain_maximal;
pub use queue::sorted_by_maturity;
pub use queue::Unbond;
pub use queue::UnbondingQueue;
pub use staking::AppWithStaking;
pub use staking::Staking;
pub use staking::BLOCK_REWARD;
pub use sums::sum;
pub use types::Address;
pub use types::BeginBlockCtx;
pub use types::Coin;
pub use types::Error;
pub use types::Signer;
pub use types::VotingPowerUpdate;
pub use validators::ValidatorEntry;
pub use validators::ValidatorPool;

//! The plain value types that flow through the staking module: addresses,
//! coins of the single native token, the per-call signer context, the
//! begin-of-block context, voting-power reports, and the error taxonomy.

use vstd::prelude::*;

verus! {

/// A fixed-length account or validator identifier, used as a map key and as
/// the consensus voting-power identifier.
#[derive(Clone, Copy, PartialEq, Eq, Structural, Debug)]
pub struct Address {
    pub id: u64,
}

/// An amount of the native staking token. There is a single denomination, so
/// a coin is its amount; arithmetic on coins is exact and overflow-checked.
#[derive(Clone, Copy, PartialEq, Eq, Structural, Debug)]
pub struct Coin {
    pub amount: u64,
}

/// How a staking operation fails. Every failure aborts the operation with no
/// state change.
///
/// Reading a validator's aggregate balance never fails here: a validator with
/// no recorded entries is read as an implicit empty pool with balance zero,
/// so there is no not-found error.
#[derive(Clone, Copy, PartialEq, Eq, Structural, Debug)]
pub enum Error {
    /// No signer context was available for a call that requires one.
    Unauthenticated,
    /// A signer context was present but carried no address.
    Unsigned,
    /// A balance was smaller than the amount to be taken from it.
    InsufficientBalance,
    /// Exact arithmetic on token amounts would exceed the representable
    /// range; treated as a fatal state-transition error, never saturated.
    Overflow,
}

/// The per-transaction signer context: the authenticated caller's address,
/// if the transaction was signed.
#[derive(Clone, Copy, Debug)]
pub struct Signer {
    pub signer: Option<Address>,
}

/// What the consensus engine delivers to the begin-of-block hook.
#[derive(Clone, Copy, Debug)]
pub struct BeginBlockCtx {
    pub height: u64,
}

/// One voting-power report handed back to the consensus engine: the named
/// validator's aggregate staked balance.
#[derive(Clone, Copy, PartialEq, Eq, Structural, Debug)]
pub struct VotingPowerUpdate {
    pub validator_address: Address,
    pub power: u64,
}

} // verus!

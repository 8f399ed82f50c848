//! The proposal record.

use vstd::prelude::*;
use crate::address::Address;

verus! {

/// A buyer's competing bid for an offer's asset, locked in a vault of its own
/// until the seller accepts it or the buyer withdraws it.
#[derive(Clone, Copy, Debug, PartialEq, Eq)]
pub struct Proposal {
    /// The identifier that the buyer chose, unique per offer and buyer.
    pub proposal_id: u64,
    /// The depositor, and the only identity that may withdraw.
    pub buyer: Address,
    /// The address of the offer that the proposal targets.
    pub offer: Address,
    /// The kind of the asset held in the proposal's vault.
    pub proposed_mint: Address,
    /// The amount held in the proposal's vault.
    pub proposed_amount: u64,
    /// The bump that makes the proposal's address a valid derived address.
    pub bump: u8,
}

impl Proposal {
    /// The bytes that a proposal takes up on the ledger.
    pub const LEN: usize = 8 + 8 + 32 + 32 + 32 + 8 + 1;

    /// Whether `who` is the buyer behind this proposal.
    pub fn is_buyer(&self, who: &Address) -> (yes: bool)
        ensures
            yes == (self.buyer == *who),
    {
        self.buyer == *who
    }

    /// Whether the proposal targets the offer at `offer`.
    pub fn targets(&self, offer: &Address) -> (yes: bool)
        ensures
            yes == (self.offer == *offer),
    {
        self.offer == *offer
    }
}

} // verus!

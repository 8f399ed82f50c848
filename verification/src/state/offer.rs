//! The offer record.

use vstd::prelude::*;
use crate::address::Address;

verus! {

/// A seller's standing commitment to trade one asset for another at fixed
/// amounts. The record exists exactly while the offer is open.
#[derive(Clone, Copy, Debug, PartialEq, Eq)]
pub struct Offer {
    /// The identifier that the seller chose, unique among the seller's offers.
    pub offer_id: u64,
    /// The depositor, and the only identity that may cancel or accept.
    pub seller: Address,
    /// The kind of the asset held in the offer's vault.
    pub token_mint_a: Address,
    /// The amount held in the offer's vault.
    pub token_amount_a: u64,
    /// The kind of the asset that a direct swap pays with.
    pub token_mint_b: Address,
    /// The amount that a direct swap pays.
    pub token_amount_b: u64,
    /// Whether proposals may target this offer.
    pub allow_alternatives: bool,
    /// The bump that makes the offer's address a valid derived address.
    pub bump: u8,
}

impl Offer {
    /// The bytes that an offer takes up on the ledger.
    pub const LEN: usize = 8 + 8 + 32 + 32 + 8 + 32 + 8 + 1 + 1;

    /// Whether `who` is the seller of this offer.
    pub fn is_seller(&self, who: &Address) -> (yes: bool)
        ensures
            yes == (self.seller == *who),
    {
        self.seller == *who
    }

    /// Whether `mint` is the kind of asset that a direct swap pays with.
    pub fn is_payment_kind(&self, mint: &Address) -> (yes: bool)
        ensures
            yes == (self.token_mint_b == *mint),
    {
        self.token_mint_b == *mint
    }
}

} // verus!

//! Acceptance of a proposal: the seller settles an offer against one of the
//! bids that target it. The bid goes to the seller, the offered asset to the
//! bidder, and both records and both vaults cease to exist.

use vstd::prelude::*;
use crate::address::Address;
use crate::constants::{OFFER_DEPOSIT, PROPOSAL_DEPOSIT, VAULT_DEPOSIT};
use crate::error::ErrorKind;
use crate::ledger::account::{Asset, ReceiverFault};
use crate::ledger::model::{
    lemma_anchored_kept, lemma_anchored_vault, lemma_close_fits, lemma_close_keeps_totals,
    lemma_offer_vault, lemma_proposal_vault, lemma_transfer_fits, lemma_transfer_keeps_totals,
    LedgerState,
};
use crate::ledger::Ledger;
use crate::pda::{derived_vault, vault_address};

verus! {

/// The accounts that an acceptance names.
#[derive(Clone, Copy, Debug)]
pub struct AcceptProposal {
    /// The offer to settle.
    pub offer: Address,
    /// The proposal to settle it against.
    pub proposal: Address,
    /// Where the seller wants the bid to go.
    pub seller_receive_account: Address,
    /// The bidder's account that the offered asset goes to.
    pub buyer_receive_account: Address,
    /// The caller.
    pub seller: Address,
}

/// Why an acceptance fails.
#[derive(Clone, Copy, Debug, PartialEq, Eq, Structural)]
pub enum ErrorCode {
    /// Only the seller can accept proposals.
    UnauthorizedSeller,
    /// No open offer is stored at the address named.
    OfferNotFound,
    /// No open proposal is stored at the address named.
    ProposalNotFound,
    /// The proposal targets another offer.
    ProposalMismatch,
    /// No address can be derived for one of the two vaults.
    AddressNotDerivable,
    /// An address given for a vault is not that of the record's vault.
    VaultMismatch,
    /// The seller's receiving account is no asset account.
    SellerReceiverNotFound,
    /// The seller's receiving account holds another asset than the bid.
    SellerReceiverMintMismatch,
    /// The seller's receiving account is a vault.
    SellerReceiverInCustody,
    /// The bidder's receiving account is no asset account of an identity.
    BuyerReceiverNotFound,
    /// The bidder's receiving account holds another asset than the offered.
    BuyerReceiverMintMismatch,
    /// The bidder's receiving account does not belong to the bidder.
    BuyerReceiverNotOwned,
}

impl ErrorCode {
    /// The class of the failure.
    pub open spec fn kind_of(self) -> ErrorKind {
        match self {
            ErrorCode::UnauthorizedSeller => ErrorKind::Unauthorized,
            _ => ErrorKind::PreconditionFailed,
        }
    }

    /// The class of the failure.
    pub fn kind(&self) -> (kind: ErrorKind)
        ensures
            kind == self.kind_of(),
    {
        match self {
            ErrorCode::UnauthorizedSeller => ErrorKind::Unauthorized,
            _ => ErrorKind::PreconditionFailed,
        }
    }
}

/// The failure that stands for a fault of the seller's receiving account.
pub open spec fn seller_receiver_error(fault: ReceiverFault) -> ErrorCode {
    match fault {
        ReceiverFault::NotFound => ErrorCode::SellerReceiverNotFound,
        ReceiverFault::MintMismatch => ErrorCode::SellerReceiverMintMismatch,
        ReceiverFault::InCustody => ErrorCode::SellerReceiverInCustody,
    }
}

/// Why the bidder's receiving account cannot take the offered asset, if it
/// cannot: it must be an asset account of the bidder for that asset.
pub open spec fn buyer_receiver_error(s: LedgerState, ctx: AcceptProposal) -> Option<ErrorCode> {
    let offer = s.offer(ctx.offer)->0;
    let proposal = s.proposal(ctx.proposal)->0;
    match s.token(ctx.buyer_receive_account) {
        None => Some(ErrorCode::BuyerReceiverNotFound),
        Some(account) => if account.mint != offer.token_mint_a {
            Some(ErrorCode::BuyerReceiverMintMismatch)
        } else if account.owner != proposal.buyer {
            Some(ErrorCode::BuyerReceiverNotOwned)
        } else {
            None
        },
    }
}

/// Why the addresses found for the two vaults do not serve, if they do not.
pub open spec fn vaults_error(
    s: LedgerState,
    ctx: AcceptProposal,
    offer_vault: Option<Address>,
    proposal_vault: Option<Address>,
) -> Option<ErrorCode> {
    match (offer_vault, proposal_vault) {
        (Some(held), Some(bid)) => if s.is_vault_of(held, ctx.offer) && s.is_vault_of(
            bid,
            ctx.proposal,
        ) {
            None
        } else {
            Some(ErrorCode::VaultMismatch)
        },
        _ => Some(ErrorCode::AddressNotDerivable),
    }
}

/// Why the acceptance fails in state `s`, if it does, where `offer_vault`
/// and `proposal_vault` are the addresses found for the two vaults. The
/// checks come in this order: the offer, the caller, the proposal and its
/// target, the vaults, the seller's receiving account, the bidder's receiving
/// account.
pub open spec fn failure(
    s: LedgerState,
    ctx: AcceptProposal,
    offer_vault: Option<Address>,
    proposal_vault: Option<Address>,
) -> Option<ErrorCode> {
    match s.offer(ctx.offer) {
        None => Some(ErrorCode::OfferNotFound),
        Some(offer) => if ctx.seller != offer.seller {
            Some(ErrorCode::UnauthorizedSeller)
        } else {
            match s.proposal(ctx.proposal) {
                None => Some(ErrorCode::ProposalNotFound),
                Some(proposal) => if proposal.offer != ctx.offer {
                    Some(ErrorCode::ProposalMismatch)
                } else {
                    match vaults_error(s, ctx, offer_vault, proposal_vault) {
                        Some(e) => Some(e),
                        None => match s.receiver_fault(
                            ctx.seller_receive_account,
                            proposal.proposed_mint,
                        ) {
                            Some(fault) => Some(seller_receiver_error(fault)),
                            None => buyer_receiver_error(s, ctx),
                        },
                    }
                },
            }
        },
    }
}

/// The state after the acceptance: the bid has moved to the seller's
/// receiving account and the offered asset to the bidder's, both vaults and
/// both records are destroyed, and each deposit is back with its depositor.
pub open spec fn settled(
    s: LedgerState,
    ctx: AcceptProposal,
    offer_vault: Address,
    proposal_vault: Address,
) -> LedgerState {
    let offer = s.offer(ctx.offer)->0;
    let proposal = s.proposal(ctx.proposal)->0;
    s.transfer(proposal_vault, ctx.seller_receive_account, proposal.proposed_amount).transfer(
        offer_vault,
        ctx.buyer_receive_account,
        offer.token_amount_a,
    ).close(offer_vault, offer.seller).close(proposal_vault, proposal.buyer).close(
        ctx.offer,
        offer.seller,
    ).close(ctx.proposal, proposal.buyer)
}

/// What a call that answers `result` does to the ledger, which it takes from
/// state `s` to state `t`: it fails exactly where `failure` says so, and then
/// changes nothing; otherwise it leaves the state `settled`.
pub open spec fn outcome(
    s: LedgerState,
    t: LedgerState,
    ctx: AcceptProposal,
    offer_vault: Option<Address>,
    proposal_vault: Option<Address>,
    result: Result<(), ErrorCode>,
) -> bool {
    match result {
        Ok(()) => failure(s, ctx, offer_vault, proposal_vault) is None && t == settled(
            s,
            ctx,
            offer_vault->0,
            proposal_vault->0,
        ),
        Err(e) => failure(s, ctx, offer_vault, proposal_vault) == Some(e) && t == s,
    }
}

/// What a successful acceptance leaves behind. The invariant holds. The
/// offer, the proposal and both vaults no longer exist, and no record or
/// vault is new. Where the two receiving accounts differ, the seller's has
/// grown by the amount of the bid and the bidder's by the amount offered;
/// where they are one account, it has grown by both. The deposits behind the
/// offer and its vault are back with the seller, those behind the proposal
/// and its vault with the bidder. No other account has changed, and the
/// supply of every asset is what it was.
pub proof fn law_accept_settles(
    s: LedgerState,
    ctx: AcceptProposal,
    offer_vault: Address,
    proposal_vault: Address,
)
    requires
        s.wf(),
        failure(s, ctx, Some(offer_vault), Some(proposal_vault)) is None,
    ensures
        ({
            let t = settled(s, ctx, offer_vault, proposal_vault);
            let offer = s.offer(ctx.offer)->0;
            let proposal = s.proposal(ctx.proposal)->0;
            &&& t.wf()
            &&& t.records_from(s)
            &&& !t.accounts.contains_key(ctx.offer)
            &&& !t.accounts.contains_key(ctx.proposal)
            &&& !t.accounts.contains_key(offer_vault)
            &&& !t.accounts.contains_key(proposal_vault)
            &&& s.token(ctx.buyer_receive_account) is Some && s.token(
                ctx.buyer_receive_account,
            )->0.owner == proposal.buyer
            &&& ctx.seller_receive_account != ctx.buyer_receive_account ==> {
                &&& t.balance(ctx.seller_receive_account) == s.balance(ctx.seller_receive_account)
                    + proposal.proposed_amount
                &&& t.balance(ctx.buyer_receive_account) == s.balance(ctx.buyer_receive_account)
                    + offer.token_amount_a
            }
            &&& ctx.seller_receive_account == ctx.buyer_receive_account ==> t.balance(
                ctx.buyer_receive_account,
            ) == s.balance(ctx.buyer_receive_account) + proposal.proposed_amount
                + offer.token_amount_a
            &&& offer.seller != proposal.buyer ==> {
                &&& t.funds(offer.seller) == s.funds(offer.seller) + OFFER_DEPOSIT + VAULT_DEPOSIT
                &&& t.funds(proposal.buyer) == s.funds(proposal.buyer) + PROPOSAL_DEPOSIT
                    + VAULT_DEPOSIT
            }
            &&& offer.seller == proposal.buyer ==> t.funds(offer.seller) == s.funds(offer.seller)
                + OFFER_DEPOSIT + PROPOSAL_DEPOSIT + 2 * VAULT_DEPOSIT
            &&& forall|key: Address|
                key != ctx.offer && key != ctx.proposal && key != offer_vault && key
                    != proposal_vault && key != ctx.seller_receive_account && key
                    != ctx.buyer_receive_account && key != offer.seller && key != proposal.buyer
                    ==> t.accounts.contains_key(key) == s.accounts.contains_key(key)
                    && t.accounts[key] == s.accounts[key]
            &&& forall|asset: Asset| #[trigger] t.supply(asset) == s.supply(asset)
        }),
{
    let offer = s.offer(ctx.offer)->0;
    let proposal = s.proposal(ctx.proposal)->0;
    lemma_offer_vault(s, ctx.offer, offer_vault);
    lemma_proposal_vault(s, ctx.proposal, proposal_vault);
    lemma_transfer_fits(s, proposal_vault, ctx.seller_receive_account);
    lemma_transfer_keeps_totals(
        s,
        proposal_vault,
        ctx.seller_receive_account,
        proposal.proposed_amount,
    );
    let s1 = s.transfer(proposal_vault, ctx.seller_receive_account, proposal.proposed_amount);
    lemma_transfer_fits(s1, offer_vault, ctx.buyer_receive_account);
    lemma_transfer_keeps_totals(s1, offer_vault, ctx.buyer_receive_account, offer.token_amount_a);
    let s2 = s1.transfer(offer_vault, ctx.buyer_receive_account, offer.token_amount_a);
    lemma_close_fits(s2, offer_vault, offer.seller);
    lemma_close_keeps_totals(s2, offer_vault, offer.seller);
    let s3 = s2.close(offer_vault, offer.seller);
    lemma_close_fits(s3, proposal_vault, proposal.buyer);
    lemma_close_keeps_totals(s3, proposal_vault, proposal.buyer);
    let s4 = s3.close(proposal_vault, proposal.buyer);
    lemma_close_fits(s4, ctx.offer, offer.seller);
    lemma_close_keeps_totals(s4, ctx.offer, offer.seller);
    let s5 = s4.close(ctx.offer, offer.seller);
    lemma_close_fits(s5, ctx.proposal, proposal.buyer);
    lemma_close_keeps_totals(s5, ctx.proposal, proposal.buyer);
    let t = s5.close(ctx.proposal, proposal.buyer);
    assert forall|asset: Asset| #[trigger] t.supply(asset) == s.supply(asset) by {
        assert(s1.supply(asset) == s.supply(asset));
        assert(s2.supply(asset) == s1.supply(asset));
        assert(s3.supply(asset) == s2.supply(asset));
        assert(s4.supply(asset) == s3.supply(asset));
        assert(s5.supply(asset) == s4.supply(asset));
    }
    assert forall|key: Address| #[trigger]
        t.accounts.contains_key(key) && t.accounts[key].data is Offer implies t.offer_backed(
        key,
    ) by {
        assert(s.accounts.contains_key(key));
        assert(s.offer_backed(key));
        let held = choose|held: Address| #[trigger] s.is_vault_of(held, key);
        assert(t.is_vault_of(held, key));
    }
    assert forall|key: Address| #[trigger]
        t.accounts.contains_key(key) && t.accounts[key].data is Proposal implies t.proposal_backed(
    key) by {
        assert(s.accounts.contains_key(key));
        assert(s.proposal_backed(key));
        let held = choose|held: Address| #[trigger] s.is_vault_of(held, key);
        assert(t.is_vault_of(held, key));
    }
    assert forall|key: Address| #[trigger]
        t.accounts.contains_key(key) && t.accounts[key].data is Vault implies t.vault_bound(
        key,
    ) by {
        assert(s.accounts.contains_key(key));
        assert(s.vault_bound(key));
        assert(s.vault(key) is Some && s.vault(offer_vault) is Some && s.vault(proposal_vault)
            is Some);
    }
    assert forall|first: Address, second: Address|
        (#[trigger] t.vault(first)) is Some && (#[trigger] t.vault(second)) is Some && t.vault(
            first,
        )->0.owner == t.vault(second)->0.owner implies first == second by {
        assert(s.vault(first) is Some);
        assert(s.vault(second) is Some);
    }
    assert forall|key: Address| #[trigger] t.vault(key) is Some implies s.is_vault_of(
        key,
        t.vault(key)->0.owner,
    ) by {
        assert(s.vault(key) is Some);
    }
}

/// Settles the offer against the proposal, for the offer's seller, where
/// `offer_vault` and `proposal_vault` are the addresses found for the two
/// vaults.
///
/// Fails, and leaves the ledger as it was, exactly where `failure` says so.
/// Otherwise the ledger ends in the state `settled`: both records and both
/// vaults are gone, and where the two receiving accounts differ, the seller's
/// has grown by the amount of the bid and the bidder's by the amount offered.
pub fn apply(
    ledger: &mut Ledger,
    ctx: &AcceptProposal,
    offer_vault: Option<Address>,
    proposal_vault: Option<Address>,
) -> (result: Result<(), ErrorCode>)
    requires
        old(ledger).wf(),
    ensures
        final(ledger).wf(),
        outcome(old(ledger)@, final(ledger)@, *ctx, offer_vault, proposal_vault, result),
        final(ledger)@.records_from(old(ledger)@),
        result is Ok ==> {
            let offer = old(ledger)@.offer(ctx.offer)->0;
            let proposal = old(ledger)@.proposal(ctx.proposal)->0;
            &&& !final(ledger)@.accounts.contains_key(ctx.offer)
            &&& !final(ledger)@.accounts.contains_key(ctx.proposal)
            &&& !final(ledger)@.accounts.contains_key(offer_vault->0)
            &&& !final(ledger)@.accounts.contains_key(proposal_vault->0)
            &&& ctx.seller_receive_account != ctx.buyer_receive_account ==> {
                &&& final(ledger)@.balance(ctx.seller_receive_account) == old(ledger)@.balance(
                    ctx.seller_receive_account,
                ) + proposal.proposed_amount
                &&& final(ledger)@.balance(ctx.buyer_receive_account) == old(ledger)@.balance(
                    ctx.buyer_receive_account,
                ) + offer.token_amount_a
            }
            &&& forall|asset: Asset| #[trigger]
                final(ledger)@.supply(asset) == old(ledger)@.supply(asset)
        },
{
    let offer = match ledger.offer(&ctx.offer) {
        Some(offer) => offer,
        None => return Err(ErrorCode::OfferNotFound),
    };
    if !offer.is_seller(&ctx.seller) {
        return Err(ErrorCode::UnauthorizedSeller);
    }
    let proposal = match ledger.proposal(&ctx.proposal) {
        Some(proposal) => proposal,
        None => return Err(ErrorCode::ProposalNotFound),
    };
    if !proposal.targets(&ctx.offer) {
        return Err(ErrorCode::ProposalMismatch);
    }
    let (offer_vault, proposal_vault) = match (offer_vault, proposal_vault) {
        (Some(held), Some(bid)) => (held, bid),
        _ => return Err(ErrorCode::AddressNotDerivable),
    };
    if !ledger.is_vault_of(&offer_vault, &ctx.offer) || !ledger.is_vault_of(
        &proposal_vault,
        &ctx.proposal,
    ) {
        return Err(ErrorCode::VaultMismatch);
    }
    match ledger.check_receiver(&ctx.seller_receive_account, &proposal.proposed_mint) {
        Some(ReceiverFault::NotFound) => return Err(ErrorCode::SellerReceiverNotFound),
        Some(ReceiverFault::MintMismatch) => return Err(ErrorCode::SellerReceiverMintMismatch),
        Some(ReceiverFault::InCustody) => return Err(ErrorCode::SellerReceiverInCustody),
        None => {},
    }
    match ledger.token_account(&ctx.buyer_receive_account) {
        None => return Err(ErrorCode::BuyerReceiverNotFound),
        Some(account) => {
            if account.mint != offer.token_mint_a {
                return Err(ErrorCode::BuyerReceiverMintMismatch);
            }
            if !proposal.is_buyer(&account.owner) {
                return Err(ErrorCode::BuyerReceiverNotOwned);
            }
        },
    }
    proof {
        lemma_offer_vault(ledger@, ctx.offer, offer_vault);
        lemma_proposal_vault(ledger@, ctx.proposal, proposal_vault);
        law_accept_settles(ledger@, *ctx, offer_vault, proposal_vault);
    }
    ledger.transfer(
        &proposal_vault,
        &ctx.seller_receive_account,
        &ctx.proposal,
        proposal.proposed_amount,
    );
    ledger.transfer(&offer_vault, &ctx.buyer_receive_account, &ctx.offer, offer.token_amount_a);
    ledger.close(&offer_vault, &offer.seller, &ctx.offer);
    ledger.close(&proposal_vault, &proposal.buyer, &ctx.proposal);
    ledger.close(&ctx.offer, &offer.seller, &offer.seller);
    ledger.close(&ctx.proposal, &proposal.buyer, &proposal.buyer);
    Ok(())
}

/// Settles the offer against the proposal, for the offer's seller. Each
/// vault is looked up at the address derived from its record's.
///
/// Fails, and leaves the ledger as it was, exactly where `failure` says so of
/// the derived addresses. Otherwise the ledger ends in the state `settled`:
/// both records and both vaults are gone, and where the two receiving
/// accounts differ, the seller's has grown by the amount of the bid and the
/// bidder's by the amount offered. On an anchored ledger the derived
/// addresses are those of the two vaults, and the ledger stays anchored.
pub fn handler(ledger: &mut Ledger, ctx: &AcceptProposal) -> (result: Result<(), ErrorCode>)
    requires
        old(ledger).wf(),
    ensures
        final(ledger).wf(),
        outcome(
            old(ledger)@,
            final(ledger)@,
            *ctx,
            derived_vault(old(ledger)@.program_id, ctx.offer),
            derived_vault(old(ledger)@.program_id, ctx.proposal),
            result,
        ),
        old(ledger)@.anchored() ==> final(ledger)@.anchored() && result != Err::<(), ErrorCode>(
            ErrorCode::AddressNotDerivable,
        ) && result != Err::<(), ErrorCode>(ErrorCode::VaultMismatch),
        result is Ok ==> {
            let offer = old(ledger)@.offer(ctx.offer)->0;
            let proposal = old(ledger)@.proposal(ctx.proposal)->0;
            &&& !final(ledger)@.accounts.contains_key(ctx.offer)
            &&& !final(ledger)@.accounts.contains_key(ctx.proposal)
            &&& !final(ledger)@.accounts.contains_key(
                derived_vault(old(ledger)@.program_id, ctx.offer)->0,
            )
            &&& !final(ledger)@.accounts.contains_key(
                derived_vault(old(ledger)@.program_id, ctx.proposal)->0,
            )
            &&& ctx.seller_receive_account != ctx.buyer_receive_account ==> {
                &&& final(ledger)@.balance(ctx.seller_receive_account) == old(ledger)@.balance(
                    ctx.seller_receive_account,
                ) + proposal.proposed_amount
                &&& final(ledger)@.balance(ctx.buyer_receive_account) == old(ledger)@.balance(
                    ctx.buyer_receive_account,
                ) + offer.token_amount_a
            }
            &&& forall|asset: Asset| #[trigger]
                final(ledger)@.supply(asset) == old(ledger)@.supply(asset)
        },
{
    let program_id = ledger.program_id();
    let offer_vault = vault_address(&program_id, &ctx.offer);
    let proposal_vault = vault_address(&program_id, &ctx.proposal);
    proof {
        if ledger@.anchored() && ledger@.offer(ctx.offer) is Some && ledger@.proposal(
            ctx.proposal,
        ) is Some {
            lemma_anchored_vault(ledger@, ctx.offer);
            lemma_anchored_vault(ledger@, ctx.proposal);
        }
    }
    let ghost before = ledger@;
    let result = apply(ledger, ctx, offer_vault, proposal_vault);
    proof {
        if before.anchored() {
            lemma_anchored_kept(before, ledger@);
        }
    }
    result
}

} // verus!

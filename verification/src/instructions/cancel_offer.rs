//! Cancellation of an offer: the seller takes the offered asset back, and
//! the offer and its vault cease to exist.

use vstd::prelude::*;
use crate::address::Address;
use crate::constants::{OFFER_DEPOSIT, VAULT_DEPOSIT};
use crate::error::ErrorKind;
use crate::ledger::account::{Asset, ReceiverFault};
use crate::ledger::model::{
    lemma_anchored_kept, lemma_anchored_vault, lemma_close_fits, lemma_close_keeps_totals,
    lemma_offer_vault, lemma_transfer_fits, lemma_transfer_keeps_totals, LedgerState,
};
use crate::ledger::Ledger;
use crate::pda::{derived_vault, vault_address};

verus! {

/// The accounts that a cancellation names.
#[derive(Clone, Copy, Debug)]
pub struct CancelOffer {
    /// The offer to cancel.
    pub offer: Address,
    /// Where the seller wants the offered asset to go.
    pub seller_token_account: Address,
    /// The caller.
    pub seller: Address,
}

/// Why a cancellation fails.
#[derive(Clone, Copy, Debug, PartialEq, Eq, Structural)]
pub enum ErrorCode {
    /// Only the seller can cancel the offer.
    UnauthorizedSeller,
    /// No open offer is stored at the address named.
    OfferNotFound,
    /// No address can be derived for the offer's vault.
    AddressNotDerivable,
    /// The address given for the vault is not that of the offer's vault.
    VaultMismatch,
    /// The receiving account is no asset account.
    ReceiverNotFound,
    /// The receiving account holds another asset than the one offered.
    ReceiverMintMismatch,
    /// The receiving account is a vault.
    ReceiverInCustody,
}

impl ErrorCode {
    /// The class of the failure.
    pub open spec fn kind_of(self) -> ErrorKind {
        match self {
            ErrorCode::UnauthorizedSeller => ErrorKind::Unauthorized,
            _ => ErrorKind::PreconditionFailed,
        }
    }

    /// The class of the failure.
    pub fn kind(&self) -> (kind: ErrorKind)
        ensures
            kind == self.kind_of(),
    {
        match self {
            ErrorCode::UnauthorizedSeller => ErrorKind::Unauthorized,
            _ => ErrorKind::PreconditionFailed,
        }
    }
}

/// The failure that stands for a fault of the receiving account.
pub open spec fn receiver_error(fault: ReceiverFault) -> ErrorCode {
    match fault {
        ReceiverFault::NotFound => ErrorCode::ReceiverNotFound,
        ReceiverFault::MintMismatch => ErrorCode::ReceiverMintMismatch,
        ReceiverFault::InCustody => ErrorCode::ReceiverInCustody,
    }
}

/// Why the cancellation fails in state `s`, if it does, where `vault` is the
/// address found for the offer's vault. The checks come in this order: the
/// offer, the caller, the vault, the receiving account.
pub open spec fn failure(s: LedgerState, ctx: CancelOffer, vault: Option<Address>) -> Option<
    ErrorCode,
> {
    match s.offer(ctx.offer) {
        None => Some(ErrorCode::OfferNotFound),
        Some(offer) => if ctx.seller != offer.seller {
            Some(ErrorCode::UnauthorizedSeller)
        } else {
            match vault {
                None => Some(ErrorCode::AddressNotDerivable),
                Some(vault) => if !s.is_vault_of(vault, ctx.offer) {
                    Some(ErrorCode::VaultMismatch)
                } else {
                    match s.receiver_fault(ctx.seller_token_account, offer.token_mint_a) {
                        Some(fault) => Some(receiver_error(fault)),
                        None => None,
                    }
                },
            }
        },
    }
}

/// The state after the cancellation: the vault's whole balance has moved to
/// the receiving account, the vault and the offer are destroyed, and both
/// deposits are back with the seller.
pub open spec fn settled(s: LedgerState, ctx: CancelOffer, vault: Address) -> LedgerState {
    let offer = s.offer(ctx.offer)->0;
    s.transfer(vault, ctx.seller_token_account, offer.token_amount_a).close(
        vault,
        offer.seller,
    ).close(ctx.offer, offer.seller)
}

/// What a call that answers `result` does to the ledger, which it takes from
/// state `s` to state `t`: it fails exactly where `failure` says so, and then
/// changes nothing; otherwise it leaves the state `settled`.
pub open spec fn outcome(
    s: LedgerState,
    t: LedgerState,
    ctx: CancelOffer,
    vault: Option<Address>,
    result: Result<(), ErrorCode>,
) -> bool {
    match result {
        Ok(()) => failure(s, ctx, vault) is None && t == settled(s, ctx, vault->0),
        Err(e) => failure(s, ctx, vault) == Some(e) && t == s,
    }
}

/// What a successful cancellation leaves behind. The invariant holds. The
/// offer and its vault no longer exist, and no record or vault is new. The
/// receiving account has grown by the amount that was offered, and the
/// seller's wallet by the two deposits. No other account has changed, and the
/// supply of every asset is what it was.
pub proof fn law_cancel_returns(s: LedgerState, ctx: CancelOffer, vault: Address)
    requires
        s.wf(),
        failure(s, ctx, Some(vault)) is None,
    ensures
        ({
            let t = settled(s, ctx, vault);
            let offer = s.offer(ctx.offer)->0;
            &&& t.wf()
            &&& t.records_from(s)
            &&& !t.accounts.contains_key(ctx.offer)
            &&& !t.accounts.contains_key(vault)
            &&& t.balance(ctx.seller_token_account) == s.balance(ctx.seller_token_account)
                + offer.token_amount_a
            &&& t.funds(offer.seller) == s.funds(offer.seller) + OFFER_DEPOSIT + VAULT_DEPOSIT
            &&& forall|key: Address|
                key != ctx.offer && key != vault && key != ctx.seller_token_account && key
                    != offer.seller ==> t.accounts.contains_key(key) == s.accounts.contains_key(
                    key,
                ) && t.accounts[key] == s.accounts[key]
            &&& forall|asset: Asset| #[trigger] t.supply(asset) == s.supply(asset)
        }),
{
    let offer = s.offer(ctx.offer)->0;
    lemma_offer_vault(s, ctx.offer, vault);
    lemma_transfer_fits(s, vault, ctx.seller_token_account);
    lemma_transfer_keeps_totals(s, vault, ctx.seller_token_account, offer.token_amount_a);
    let s1 = s.transfer(vault, ctx.seller_token_account, offer.token_amount_a);
    lemma_close_fits(s1, vault, offer.seller);
    lemma_close_keeps_totals(s1, vault, offer.seller);
    let s2 = s1.close(vault, offer.seller);
    lemma_close_fits(s2, ctx.offer, offer.seller);
    lemma_close_keeps_totals(s2, ctx.offer, offer.seller);
    let t = s2.close(ctx.offer, offer.seller);
    assert forall|asset: Asset| #[trigger] t.supply(asset) == s.supply(asset) by {
        assert(s1.supply(asset) == s.supply(asset));
        assert(s2.supply(asset) == s1.supply(asset));
    }
    assert forall|key: Address| #[trigger]
        t.accounts.contains_key(key) && t.accounts[key].data is Offer implies t.offer_backed(
        key,
    ) by {
        assert(s.accounts.contains_key(key));
        assert(s.offer_backed(key));
        let held = choose|held: Address| #[trigger] s.is_vault_of(held, key);
        assert(t.is_vault_of(held, key));
    }
    assert forall|key: Address| #[trigger]
        t.accounts.contains_key(key) && t.accounts[key].data is Proposal implies t.proposal_backed(
    key) by {
        assert(s.accounts.contains_key(key));
        assert(s.proposal_backed(key));
        let held = choose|held: Address| #[trigger] s.is_vault_of(held, key);
        assert(t.is_vault_of(held, key));
    }
    assert forall|key: Address| #[trigger]
        t.accounts.contains_key(key) && t.accounts[key].data is Vault implies t.vault_bound(
        key,
    ) by {
        assert(s.accounts.contains_key(key));
        assert(s.vault_bound(key));
        assert(s.vault(key) is Some && s.vault(vault) is Some);
    }
    assert forall|first: Address, second: Address|
        (#[trigger] t.vault(first)) is Some && (#[trigger] t.vault(second)) is Some && t.vault(
            first,
        )->0.owner == t.vault(second)->0.owner implies first == second by {
        assert(s.vault(first) is Some);
        assert(s.vault(second) is Some);
    }
    assert forall|key: Address| #[trigger] t.vault(key) is Some implies s.is_vault_of(
        key,
        t.vault(key)->0.owner,
    ) by {
        assert(s.vault(key) is Some);
    }
}

/// Cancels the offer, for its seller, where `vault` is the address found for
/// the offer's vault.
///
/// Fails, and leaves the ledger as it was, exactly where `failure` says so.
/// Otherwise the ledger ends in the state `settled`: the offer and its vault
/// are gone and the receiving account holds what the vault held.
pub fn apply(ledger: &mut Ledger, ctx: &CancelOffer, vault: Option<Address>) -> (result: Result<
    (),
    ErrorCode,
>)
    requires
        old(ledger).wf(),
    ensures
        final(ledger).wf(),
        outcome(old(ledger)@, final(ledger)@, *ctx, vault, result),
        final(ledger)@.records_from(old(ledger)@),
        result is Ok ==> {
            &&& !final(ledger)@.accounts.contains_key(ctx.offer)
            &&& !final(ledger)@.accounts.contains_key(vault->0)
            &&& final(ledger)@.balance(ctx.seller_token_account) == old(ledger)@.balance(
                ctx.seller_token_account,
            ) + old(ledger)@.offer(ctx.offer)->0.token_amount_a
            &&& forall|asset: Asset| #[trigger]
                final(ledger)@.supply(asset) == old(ledger)@.supply(asset)
        },
{
    let offer = match ledger.offer(&ctx.offer) {
        Some(offer) => offer,
        None => return Err(ErrorCode::OfferNotFound),
    };
    if !offer.is_seller(&ctx.seller) {
        return Err(ErrorCode::UnauthorizedSeller);
    }
    let vault = match vault {
        Some(vault) => vault,
        None => return Err(ErrorCode::AddressNotDerivable),
    };
    if !ledger.is_vault_of(&vault, &ctx.offer) {
        return Err(ErrorCode::VaultMismatch);
    }
    match ledger.check_receiver(&ctx.seller_token_account, &offer.token_mint_a) {
        Some(ReceiverFault::NotFound) => return Err(ErrorCode::ReceiverNotFound),
        Some(ReceiverFault::MintMismatch) => return Err(ErrorCode::ReceiverMintMismatch),
        Some(ReceiverFault::InCustody) => return Err(ErrorCode::ReceiverInCustody),
        None => {},
    }
    proof {
        lemma_offer_vault(ledger@, ctx.offer, vault);
        law_cancel_returns(ledger@, *ctx, vault);
    }
    ledger.transfer(&vault, &ctx.seller_token_account, &ctx.offer, offer.token_amount_a);
    ledger.close(&vault, &offer.seller, &ctx.offer);
    ledger.close(&ctx.offer, &offer.seller, &offer.seller);
    Ok(())
}

/// Cancels the offer, for its seller. The offer's vault is looked up at the
/// address derived from the offer's.
///
/// Fails, and leaves the ledger as it was, exactly where `failure` says so of
/// the derived address. Otherwise the ledger ends in the state `settled`: the
/// offer and its vault are gone and the receiving account holds what the
/// vault held. On an anchored ledger the derived address is that of the
/// offer's vault, and the ledger stays anchored.
pub fn handler(ledger: &mut Ledger, ctx: &CancelOffer) -> (result: Result<(), ErrorCode>)
    requires
        old(ledger).wf(),
    ensures
        final(ledger).wf(),
        outcome(
            old(ledger)@,
            final(ledger)@,
            *ctx,
            derived_vault(old(ledger)@.program_id, ctx.offer),
            result,
        ),
        old(ledger)@.anchored() ==> final(ledger)@.anchored() && result != Err::<(), ErrorCode>(
            ErrorCode::AddressNotDerivable,
        ) && result != Err::<(), ErrorCode>(ErrorCode::VaultMismatch),
        result is Ok ==> {
            &&& !final(ledger)@.accounts.contains_key(ctx.offer)
            &&& final(ledger)@.balance(ctx.seller_token_account) == old(ledger)@.balance(
                ctx.seller_token_account,
            ) + old(ledger)@.offer(ctx.offer)->0.token_amount_a
            &&& forall|asset: Asset| #[trigger]
                final(ledger)@.supply(asset) == old(ledger)@.supply(asset)
        },
{
    let vault = vault_address(&ledger.program_id(), &ctx.offer);
    proof {
        if ledger@.anchored() && ledger@.offer(ctx.offer) is Some {
            lemma_anchored_vault(ledger@, ctx.offer);
        }
    }
    let ghost before = ledger@;
    let result = apply(ledger, ctx, vault);
    proof {
        if before.anchored() {
            lemma_anchored_kept(before, ledger@);
        }
    }
    result
}

} // verus!

//! Direct execution of a swap: a buyer pays the price that the offer states
//! straight to the seller and takes the offered asset out of the vault. The
//! seller agreed to these terms when the offer was created and takes no part.

use vstd::prelude::*;
use crate::address::Address;
use crate::constants::{OFFER_DEPOSIT, VAULT_DEPOSIT};
use crate::error::ErrorKind;
use crate::ledger::account::{Asset, ReceiverFault, SourceFault};
use crate::ledger::model::{
    lemma_anchored_kept, lemma_anchored_vault, lemma_close_fits, lemma_close_keeps_totals,
    lemma_offer_vault, lemma_transfer_fits, lemma_transfer_keeps_totals, LedgerState,
};
use crate::ledger::Ledger;
use crate::pda::{derived_vault, vault_address};

verus! {

/// The accounts that a direct swap names.
#[derive(Clone, Copy, Debug)]
pub struct ExecuteSwap {
    /// The offer to execute.
    pub offer: Address,
    /// The buyer's account that the payment comes out of.
    pub buyer_token_account: Address,
    /// The seller's account that the payment goes to.
    pub seller_token_account: Address,
    /// Where the buyer wants the offered asset to go.
    pub buyer_receive_account: Address,
    /// The caller.
    pub buyer: Address,
}

/// Why a direct swap fails.
#[derive(Clone, Copy, Debug, PartialEq, Eq, Structural)]
pub enum ErrorCode {
    /// The payment account holds another asset than the offer asks for.
    InvalidTokenMint,
    /// No open offer is stored at the address named.
    OfferNotFound,
    /// The payment account is no asset account of an identity.
    PaymentNotFound,
    /// The payment account does not belong to the caller.
    PaymentNotOwned,
    /// The payment account holds less than the price.
    InsufficientFunds,
    /// No address can be derived for the offer's vault.
    AddressNotDerivable,
    /// The address given for the vault is not that of the offer's vault.
    VaultMismatch,
    /// The seller's account is no asset account of an identity.
    SellerAccountNotFound,
    /// The seller's account holds another asset than the offer asks for.
    SellerAccountMintMismatch,
    /// The seller's account does not belong to the seller.
    SellerAccountNotOwned,
    /// The receiving account is no asset account.
    ReceiverNotFound,
    /// The receiving account holds another asset than the one offered.
    ReceiverMintMismatch,
    /// The receiving account is a vault.
    ReceiverInCustody,
}

impl ErrorCode {
    /// The class of the failure.
    pub open spec fn kind_of(self) -> ErrorKind {
        match self {
            ErrorCode::PaymentNotOwned => ErrorKind::Unauthorized,
            ErrorCode::InsufficientFunds => ErrorKind::InsufficientBalance,
            _ => ErrorKind::PreconditionFailed,
        }
    }

    /// The class of the failure.
    pub fn kind(&self) -> (kind: ErrorKind)
        ensures
            kind == self.kind_of(),
    {
        match self {
            ErrorCode::PaymentNotOwned => ErrorKind::Unauthorized,
            ErrorCode::InsufficientFunds => ErrorKind::InsufficientBalance,
            _ => ErrorKind::PreconditionFailed,
        }
    }
}

/// The failure that stands for a fault of the payment account.
pub open spec fn payment_error(fault: SourceFault) -> ErrorCode {
    match fault {
        SourceFault::NotFound => ErrorCode::PaymentNotFound,
        SourceFault::MintMismatch => ErrorCode::InvalidTokenMint,
        SourceFault::NotOwned => ErrorCode::PaymentNotOwned,
        SourceFault::InsufficientFunds => ErrorCode::InsufficientFunds,
    }
}

/// The failure that stands for a fault of the receiving account.
pub open spec fn receiver_error(fault: ReceiverFault) -> ErrorCode {
    match fault {
        ReceiverFault::NotFound => ErrorCode::ReceiverNotFound,
        ReceiverFault::MintMismatch => ErrorCode::ReceiverMintMismatch,
        ReceiverFault::InCustody => ErrorCode::ReceiverInCustody,
    }
}

/// Why the seller's account cannot take the payment, if it cannot: it must
/// be an asset account of the seller for the asset that the offer asks for.
pub open spec fn seller_account_error(s: LedgerState, ctx: ExecuteSwap) -> Option<ErrorCode> {
    let offer = s.offer(ctx.offer)->0;
    match s.token(ctx.seller_token_account) {
        None => Some(ErrorCode::SellerAccountNotFound),
        Some(account) => if account.mint != offer.token_mint_b {
            Some(ErrorCode::SellerAccountMintMismatch)
        } else if account.owner != offer.seller {
            Some(ErrorCode::SellerAccountNotOwned)
        } else {
            None
        },
    }
}

/// Why the swap fails in state `s`, if it does, where `vault` is the address
/// found for the offer's vault. The checks come in this order: the offer, the
/// payment account, the vault, the seller's account, the receiving account.
pub open spec fn failure(s: LedgerState, ctx: ExecuteSwap, vault: Option<Address>) -> Option<
    ErrorCode,
> {
    match s.offer(ctx.offer) {
        None => Some(ErrorCode::OfferNotFound),
        Some(offer) => match s.source_fault(
            ctx.buyer_token_account,
            offer.token_mint_b,
            ctx.buyer,
            offer.token_amount_b,
        ) {
            Some(fault) => Some(payment_error(fault)),
            None => match vault {
                None => Some(ErrorCode::AddressNotDerivable),
                Some(vault) => if !s.is_vault_of(vault, ctx.offer) {
                    Some(ErrorCode::VaultMismatch)
                } else {
                    match seller_account_error(s, ctx) {
                        Some(e) => Some(e),
                        None => match s.receiver_fault(
                            ctx.buyer_receive_account,
                            offer.token_mint_a,
                        ) {
                            Some(fault) => Some(receiver_error(fault)),
                            None => None,
                        },
                    }
                },
            },
        },
    }
}

/// The state after the swap: the price has moved from the payment account to
/// the seller's account, the vault's whole balance to the receiving account,
/// the vault and the offer are destroyed, and both deposits are back with
/// the seller.
pub open spec fn settled(s: LedgerState, ctx: ExecuteSwap, vault: Address) -> LedgerState {
    let offer = s.offer(ctx.offer)->0;
    s.transfer(ctx.buyer_token_account, ctx.seller_token_account, offer.token_amount_b).transfer(
        vault,
        ctx.buyer_receive_account,
        offer.token_amount_a,
    ).close(vault, offer.seller).close(ctx.offer, offer.seller)
}

/// What a call that answers `result` does to the ledger, which it takes from
/// state `s` to state `t`: it fails exactly where `failure` says so, and then
/// changes nothing; otherwise it leaves the state `settled`.
pub open spec fn outcome(
    s: LedgerState,
    t: LedgerState,
    ctx: ExecuteSwap,
    vault: Option<Address>,
    result: Result<(), ErrorCode>,
) -> bool {
    match result {
        Ok(()) => failure(s, ctx, vault) is None && t == settled(s, ctx, vault->0),
        Err(e) => failure(s, ctx, vault) == Some(e) && t == s,
    }
}

/// What a successful swap leaves behind. The invariant holds. The offer and
/// its vault no longer exist, and no record or vault is new. Of the three
/// asset accounts named, each that is different from the other two has
/// changed by exactly its own leg: the seller's account has grown by the
/// price, the receiving account by the amount offered, and the payment
/// account is down by the price. The seller's wallet has grown by the two
/// deposits. No other account has changed, and the supply of every asset is
/// what it was.
pub proof fn law_swap_exchanges(s: LedgerState, ctx: ExecuteSwap, vault: Address)
    requires
        s.wf(),
        failure(s, ctx, Some(vault)) is None,
    ensures
        ({
            let t = settled(s, ctx, vault);
            let offer = s.offer(ctx.offer)->0;
            let payment = ctx.buyer_token_account;
            let paid = ctx.seller_token_account;
            let received = ctx.buyer_receive_account;
            &&& t.wf()
            &&& t.records_from(s)
            &&& !t.accounts.contains_key(ctx.offer)
            &&& !t.accounts.contains_key(vault)
            &&& s.token(paid) is Some && s.token(paid)->0.owner == offer.seller
            &&& paid != payment && paid != received ==> t.balance(paid) == s.balance(paid)
                + offer.token_amount_b
            &&& received != payment && received != paid ==> t.balance(received) == s.balance(
                received,
            ) + offer.token_amount_a
            &&& payment != paid && payment != received ==> t.balance(payment) == s.balance(payment)
                - offer.token_amount_b
            &&& t.funds(offer.seller) == s.funds(offer.seller) + OFFER_DEPOSIT + VAULT_DEPOSIT
            &&& forall|key: Address|
                key != ctx.offer && key != vault && key != payment && key != paid && key
                    != received && key != offer.seller ==> t.accounts.contains_key(key)
                    == s.accounts.contains_key(key) && t.accounts[key] == s.accounts[key]
            &&& forall|asset: Asset| #[trigger] t.supply(asset) == s.supply(asset)
        }),
{
    let offer = s.offer(ctx.offer)->0;
    lemma_offer_vault(s, ctx.offer, vault);
    if ctx.buyer_token_account != ctx.seller_token_account {
        lemma_transfer_fits(s, ctx.buyer_token_account, ctx.seller_token_account);
    }
    lemma_transfer_keeps_totals(
        s,
        ctx.buyer_token_account,
        ctx.seller_token_account,
        offer.token_amount_b,
    );
    let s1 = s.transfer(ctx.buyer_token_account, ctx.seller_token_account, offer.token_amount_b);
    lemma_transfer_fits(s1, vault, ctx.buyer_receive_account);
    lemma_transfer_keeps_totals(s1, vault, ctx.buyer_receive_account, offer.token_amount_a);
    let s2 = s1.transfer(vault, ctx.buyer_receive_account, offer.token_amount_a);
    lemma_close_fits(s2, vault, offer.seller);
    lemma_close_keeps_totals(s2, vault, offer.seller);
    let s3 = s2.close(vault, offer.seller);
    lemma_close_fits(s3, ctx.offer, offer.seller);
    lemma_close_keeps_totals(s3, ctx.offer, offer.seller);
    let t = s3.close(ctx.offer, offer.seller);
    assert forall|asset: Asset| #[trigger] t.supply(asset) == s.supply(asset) by {
        assert(s1.supply(asset) == s.supply(asset));
        assert(s2.supply(asset) == s1.supply(asset));
        assert(s3.supply(asset) == s2.supply(asset));
    }
    assert forall|key: Address| #[trigger]
        t.accounts.contains_key(key) && t.accounts[key].data is Offer implies t.offer_backed(
        key,
    ) by {
        assert(s.accounts.contains_key(key));
        assert(s.offer_backed(key));
        let held = choose|held: Address| #[trigger] s.is_vault_of(held, key);
        assert(t.is_vault_of(held, key));
    }
    assert forall|key: Address| #[trigger]
        t.accounts.contains_key(key) && t.accounts[key].data is Proposal implies t.proposal_backed(
    key) by {
        assert(s.accounts.contains_key(key));
        assert(s.proposal_backed(key));
        let held = choose|held: Address| #[trigger] s.is_vault_of(held, key);
        assert(t.is_vault_of(held, key));
    }
    assert forall|key: Address| #[trigger]
        t.accounts.contains_key(key) && t.accounts[key].data is Vault implies t.vault_bound(
        key,
    ) by {
        assert(s.accounts.contains_key(key));
        assert(s.vault_bound(key));
        assert(s.vault(key) is Some && s.vault(vault) is Some);
    }
    assert forall|first: Address, second: Address|
        (#[trigger] t.vault(first)) is Some && (#[trigger] t.vault(second)) is Some && t.vault(
            first,
        )->0.owner == t.vault(second)->0.owner implies first == second by {
        assert(s.vault(first) is Some);
        assert(s.vault(second) is Some);
    }
    assert forall|key: Address| #[trigger] t.vault(key) is Some implies s.is_vault_of(
        key,
        t.vault(key)->0.owner,
    ) by {
        assert(s.vault(key) is Some);
    }
}

/// A swap whose payment account holds another asset than the offer asks for
/// fails, whatever else it names.
pub proof fn law_swap_wants_stated_asset(s: LedgerState, ctx: ExecuteSwap, vault: Option<Address>)
    requires
        s.offer(ctx.offer) is Some,
        s.token(ctx.buyer_token_account) is Some,
        s.token(ctx.buyer_token_account)->0.mint != s.offer(ctx.offer)->0.token_mint_b,
    ensures
        failure(s, ctx, vault) == Some(ErrorCode::InvalidTokenMint),
{
}

/// Executes the swap that the offer states, for a buyer, where `vault` is
/// the address found for the offer's vault.
///
/// Fails, and leaves the ledger as it was, exactly where `failure` says so;
/// among these, where the payment account holds another asset than the offer
/// asks for. Otherwise the ledger ends in the state `settled`: where the
/// three asset accounts differ, the seller's account has grown by exactly the
/// price and the receiving account by exactly the amount offered.
pub fn apply(ledger: &mut Ledger, ctx: &ExecuteSwap, vault: Option<Address>) -> (result: Result<
    (),
    ErrorCode,
>)
    requires
        old(ledger).wf(),
    ensures
        final(ledger).wf(),
        outcome(old(ledger)@, final(ledger)@, *ctx, vault, result),
        final(ledger)@.records_from(old(ledger)@),
        result is Ok ==> {
            let offer = old(ledger)@.offer(ctx.offer)->0;
            &&& !final(ledger)@.accounts.contains_key(ctx.offer)
            &&& !final(ledger)@.accounts.contains_key(vault->0)
            &&& ctx.seller_token_account != ctx.buyer_token_account && ctx.seller_token_account
                != ctx.buyer_receive_account ==> final(ledger)@.balance(ctx.seller_token_account)
                == old(ledger)@.balance(ctx.seller_token_account) + offer.token_amount_b
            &&& ctx.buyer_receive_account != ctx.buyer_token_account && ctx.buyer_receive_account
                != ctx.seller_token_account ==> final(ledger)@.balance(ctx.buyer_receive_account)
                == old(ledger)@.balance(ctx.buyer_receive_account) + offer.token_amount_a
            &&& forall|asset: Asset| #[trigger]
                final(ledger)@.supply(asset) == old(ledger)@.supply(asset)
        },
        old(ledger)@.offer(ctx.offer) is Some && old(ledger)@.token(ctx.buyer_token_account)
            is Some && old(ledger)@.token(ctx.buyer_token_account)->0.mint != old(ledger)@.offer(
            ctx.offer,
        )->0.token_mint_b ==> result == Err::<(), ErrorCode>(ErrorCode::InvalidTokenMint),
{
    let offer = match ledger.offer(&ctx.offer) {
        Some(offer) => offer,
        None => return Err(ErrorCode::OfferNotFound),
    };
    match ledger.check_source(
        &ctx.buyer_token_account,
        &offer.token_mint_b,
        &ctx.buyer,
        offer.token_amount_b,
    ) {
        Some(SourceFault::NotFound) => return Err(ErrorCode::PaymentNotFound),
        Some(SourceFault::MintMismatch) => return Err(ErrorCode::InvalidTokenMint),
        Some(SourceFault::NotOwned) => return Err(ErrorCode::PaymentNotOwned),
        Some(SourceFault::InsufficientFunds) => return Err(ErrorCode::InsufficientFunds),
        None => {},
    }
    let vault = match vault {
        Some(vault) => vault,
        None => return Err(ErrorCode::AddressNotDerivable),
    };
    if !ledger.is_vault_of(&vault, &ctx.offer) {
        return Err(ErrorCode::VaultMismatch);
    }
    match ledger.token_account(&ctx.seller_token_account) {
        None => return Err(ErrorCode::SellerAccountNotFound),
        Some(account) => {
            if !offer.is_payment_kind(&account.mint) {
                return Err(ErrorCode::SellerAccountMintMismatch);
            }
            if !offer.is_seller(&account.owner) {
                return Err(ErrorCode::SellerAccountNotOwned);
            }
        },
    }
    match ledger.check_receiver(&ctx.buyer_receive_account, &offer.token_mint_a) {
        Some(ReceiverFault::NotFound) => return Err(ErrorCode::ReceiverNotFound),
        Some(ReceiverFault::MintMismatch) => return Err(ErrorCode::ReceiverMintMismatch),
        Some(ReceiverFault::InCustody) => return Err(ErrorCode::ReceiverInCustody),
        None => {},
    }
    proof {
        lemma_offer_vault(ledger@, ctx.offer, vault);
        law_swap_exchanges(ledger@, *ctx, vault);
    }
    ledger.transfer(
        &ctx.buyer_token_account,
        &ctx.seller_token_account,
        &ctx.buyer,
        offer.token_amount_b,
    );
    ledger.transfer(&vault, &ctx.buyer_receive_account, &ctx.offer, offer.token_amount_a);
    ledger.close(&vault, &offer.seller, &ctx.offer);
    ledger.close(&ctx.offer, &offer.seller, &offer.seller);
    Ok(())
}

/// Executes the swap that the offer states, for a buyer. The offer's vault is
/// looked up at the address derived from the offer's.
///
/// Fails, and leaves the ledger as it was, exactly where `failure` says so of
/// the derived address; among these, where the payment account holds another
/// asset than the offer asks for. Otherwise the ledger ends in the state
/// `settled`: where the three asset accounts differ, the seller's account has
/// grown by exactly the price and the receiving account by exactly the amount
/// offered. On an anchored ledger the derived address is that of the offer's
/// vault, and the ledger stays anchored.
pub fn handler(ledger: &mut Ledger, ctx: &ExecuteSwap) -> (result: Result<(), ErrorCode>)
    requires
        old(ledger).wf(),
    ensures
        final(ledger).wf(),
        outcome(
            old(ledger)@,
            final(ledger)@,
            *ctx,
            derived_vault(old(ledger)@.program_id, ctx.offer),
            result,
        ),
        old(ledger)@.anchored() ==> final(ledger)@.anchored() && result != Err::<(), ErrorCode>(
            ErrorCode::AddressNotDerivable,
        ) && result != Err::<(), ErrorCode>(ErrorCode::VaultMismatch),
        result is Ok ==> {
            let offer = old(ledger)@.offer(ctx.offer)->0;
            &&& !final(ledger)@.accounts.contains_key(ctx.offer)
            &&& ctx.seller_token_account != ctx.buyer_token_account && ctx.seller_token_account
                != ctx.buyer_receive_account ==> final(ledger)@.balance(ctx.seller_token_account)
                == old(ledger)@.balance(ctx.seller_token_account) + offer.token_amount_b
            &&& ctx.buyer_receive_account != ctx.buyer_token_account && ctx.buyer_receive_account
                != ctx.seller_token_account ==> final(ledger)@.balance(ctx.buyer_receive_account)
                == old(ledger)@.balance(ctx.buyer_receive_account) + offer.token_amount_a
            &&& forall|asset: Asset| #[trigger]
                final(ledger)@.supply(asset) == old(ledger)@.supply(asset)
        },
        old(ledger)@.offer(ctx.offer) is Some && old(ledger)@.token(ctx.buyer_token_account)
            is Some && old(ledger)@.token(ctx.buyer_token_account)->0.mint != old(ledger)@.offer(
            ctx.offer,
        )->0.token_mint_b ==> result == Err::<(), ErrorCode>(ErrorCode::InvalidTokenMint),
{
    let vault = vault_address(&ledger.program_id(), &ctx.offer);
    proof {
        if ledger@.anchored() && ledger@.offer(ctx.offer) is Some {
            lemma_anchored_vault(ledger@, ctx.offer);
        }
    }
    let ghost before = ledger@;
    let result = apply(ledger, ctx, vault);
    proof {
        if before.anchored() {
            lemma_anchored_kept(before, ledger@);
        }
    }
    result
}

} // verus!

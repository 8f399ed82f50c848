//! What holds across the operations of the protocol: who may close a record,
//! and what a closed record leaves to the operations that come after.

use vstd::prelude::*;
use crate::address::Address;
use crate::error::ErrorKind;
use crate::instructions::accept_proposal;
use crate::instructions::accept_proposal::AcceptProposal;
use crate::instructions::cancel_offer;
use crate::instructions::cancel_offer::CancelOffer;
use crate::instructions::execute_swap;
use crate::instructions::execute_swap::ExecuteSwap;
use crate::instructions::submit_proposal;
use crate::instructions::submit_proposal::SubmitProposal;
use crate::instructions::withdraw_proposal;
use crate::instructions::withdraw_proposal::WithdrawProposal;
use crate::ledger::model::{lemma_proposal_vault, LedgerState};

verus! {

/// Whether `t` is a state that a successful cancellation of the offer at
/// `offer` can leave behind in `s`.
pub open spec fn cancelled(s: LedgerState, t: LedgerState, offer: Address) -> bool {
    exists|ctx: CancelOffer, vault: Address|
        ctx.offer == offer && cancel_offer::failure(s, ctx, Some(vault)) is None && t
            == #[trigger] cancel_offer::settled(s, ctx, vault)
}

/// Whether `t` is a state that a successful direct swap on the offer at
/// `offer` can leave behind in `s`.
pub open spec fn swapped(s: LedgerState, t: LedgerState, offer: Address) -> bool {
    exists|ctx: ExecuteSwap, vault: Address|
        ctx.offer == offer && execute_swap::failure(s, ctx, Some(vault)) is None && t
            == #[trigger] execute_swap::settled(s, ctx, vault)
}

/// Whether `t` is a state that a successful acceptance on the offer at
/// `offer` can leave behind in `s`.
pub open spec fn accepted(s: LedgerState, t: LedgerState, offer: Address) -> bool {
    exists|ctx: AcceptProposal, held: Address, bid: Address|
        ctx.offer == offer && accept_proposal::failure(s, ctx, Some(held), Some(bid)) is None
            && t == #[trigger] accept_proposal::settled(s, ctx, held, bid)
}

/// Whether `t` is a state that one of the three operations that close an
/// offer can leave behind when it succeeds on the offer at `offer` in `s`.
pub open spec fn closes_offer(s: LedgerState, t: LedgerState, offer: Address) -> bool {
    cancelled(s, t, offer) || swapped(s, t, offer) || accepted(s, t, offer)
}

/// A closed offer is gone: once a cancellation, a direct swap or an
/// acceptance has succeeded on an offer, the invariant still holds and no
/// offer is stored at its address.
pub proof fn law_closed_offer_is_absent(s: LedgerState, t: LedgerState, offer: Address)
    requires
        s.wf(),
        closes_offer(s, t, offer),
    ensures
        t.wf(),
        t.offer(offer) is None,
{
    if cancelled(s, t, offer) {
        let (ctx, vault) = choose|ctx: CancelOffer, vault: Address|
            ctx.offer == offer && cancel_offer::failure(s, ctx, Some(vault)) is None && t
                == #[trigger] cancel_offer::settled(s, ctx, vault);
        cancel_offer::law_cancel_returns(s, ctx, vault);
    } else if swapped(s, t, offer) {
        let (ctx, vault) = choose|ctx: ExecuteSwap, vault: Address|
            ctx.offer == offer && execute_swap::failure(s, ctx, Some(vault)) is None && t
                == #[trigger] execute_swap::settled(s, ctx, vault);
        execute_swap::law_swap_exchanges(s, ctx, vault);
    } else {
        let (ctx, held, bid) = choose|ctx: AcceptProposal, held: Address, bid: Address|
            ctx.offer == offer && accept_proposal::failure(s, ctx, Some(held), Some(bid))
                is None && t == #[trigger] accept_proposal::settled(s, ctx, held, bid);
        accept_proposal::law_accept_settles(s, ctx, held, bid);
    }
}

/// No operation on an absent offer succeeds: where no offer is stored at the
/// address named, a cancellation, a direct swap, an acceptance and the
/// submission of a proposal all fail for want of the offer, whoever calls
/// and whatever else is named or found. The failure is of the kind
/// `PreconditionFailed`.
pub proof fn law_absent_offer_refuses(
    t: LedgerState,
    cancel: CancelOffer,
    swap: ExecuteSwap,
    accept: AcceptProposal,
    submit: SubmitProposal,
    proposed_amount: u64,
    found: Option<(Address, u8)>,
    first: Option<Address>,
    second: Option<Address>,
)
    requires
        t.offer(cancel.offer) is None,
        t.offer(swap.offer) is None,
        t.offer(accept.offer) is None,
        t.offer(submit.offer) is None,
    ensures
        cancel_offer::failure(t, cancel, first) == Some(cancel_offer::ErrorCode::OfferNotFound),
        execute_swap::failure(t, swap, first) == Some(execute_swap::ErrorCode::OfferNotFound),
        accept_proposal::failure(t, accept, first, second) == Some(
            accept_proposal::ErrorCode::OfferNotFound,
        ),
        submit_proposal::failure(t, submit, proposed_amount, found, first) == Some(
            submit_proposal::ErrorCode::OfferNotFound,
        ),
        cancel_offer::ErrorCode::OfferNotFound.kind_of() == ErrorKind::PreconditionFailed,
        execute_swap::ErrorCode::OfferNotFound.kind_of() == ErrorKind::PreconditionFailed,
        accept_proposal::ErrorCode::OfferNotFound.kind_of() == ErrorKind::PreconditionFailed,
        submit_proposal::ErrorCode::OfferNotFound.kind_of() == ErrorKind::PreconditionFailed,
{
}

/// An offer closes once: after a cancellation, a direct swap or an
/// acceptance has succeeded on an offer, each of the three, called again on
/// that offer by anyone, with any accounts and whatever is found for the
/// vaults, fails with a failure of the kind `PreconditionFailed`.
pub proof fn law_offer_closes_once(
    s: LedgerState,
    t: LedgerState,
    offer: Address,
    cancel: CancelOffer,
    swap: ExecuteSwap,
    accept: AcceptProposal,
    first: Option<Address>,
    second: Option<Address>,
)
    requires
        s.wf(),
        closes_offer(s, t, offer),
        cancel.offer == offer,
        swap.offer == offer,
        accept.offer == offer,
    ensures
        cancel_offer::failure(t, cancel, first) matches Some(e) && e.kind_of()
            == ErrorKind::PreconditionFailed,
        execute_swap::failure(t, swap, first) matches Some(e) && e.kind_of()
            == ErrorKind::PreconditionFailed,
        accept_proposal::failure(t, accept, first, second) matches Some(e) && e.kind_of()
            == ErrorKind::PreconditionFailed,
{
    law_closed_offer_is_absent(s, t, offer);
}

/// Only the seller closes an offer by will: a cancellation or an acceptance
/// of an open offer that anyone but its seller calls fails with a failure of
/// the kind `Unauthorized`, whatever else the call names.
pub proof fn law_only_seller_decides(
    s: LedgerState,
    cancel: CancelOffer,
    accept: AcceptProposal,
    first: Option<Address>,
    second: Option<Address>,
)
    requires
        s.offer(cancel.offer) is Some,
        s.offer(cancel.offer)->0.seller != cancel.seller,
        s.offer(accept.offer) is Some,
        s.offer(accept.offer)->0.seller != accept.seller,
    ensures
        cancel_offer::failure(s, cancel, first) == Some(
            cancel_offer::ErrorCode::UnauthorizedSeller,
        ),
        accept_proposal::failure(s, accept, first, second) == Some(
            accept_proposal::ErrorCode::UnauthorizedSeller,
        ),
        cancel_offer::ErrorCode::UnauthorizedSeller.kind_of() == ErrorKind::Unauthorized,
        accept_proposal::ErrorCode::UnauthorizedSeller.kind_of() == ErrorKind::Unauthorized,
{
}

/// Only the buyer withdraws a proposal: a withdrawal of an open proposal that
/// anyone but its buyer calls fails with a failure of the kind
/// `Unauthorized`, whatever else the call names.
pub proof fn law_only_buyer_withdraws(s: LedgerState, ctx: WithdrawProposal, vault: Option<Address>)
    requires
        s.proposal(ctx.proposal) is Some,
        s.proposal(ctx.proposal)->0.buyer != ctx.buyer,
    ensures
        withdraw_proposal::failure(s, ctx, vault) == Some(
            withdraw_proposal::ErrorCode::UnauthorizedBuyer,
        ),
        withdraw_proposal::ErrorCode::UnauthorizedBuyer.kind_of() == ErrorKind::Unauthorized,
{
}

/// A proposal outlives its offer as far as withdrawal goes. Whether a
/// withdrawal fails depends on the proposal, its vault, the caller and the
/// receiving account alone; and where a cancellation closes an offer, every
/// proposal that was open stays open, and a withdrawal that could succeed
/// before can succeed after.
pub proof fn law_withdrawal_survives_cancel(
    s: LedgerState,
    closing: CancelOffer,
    closed_vault: Address,
    ctx: WithdrawProposal,
    vault: Address,
)
    requires
        s.wf(),
        cancel_offer::failure(s, closing, Some(closed_vault)) is None,
        withdraw_proposal::failure(s, ctx, Some(vault)) is None,
    ensures
        cancel_offer::settled(s, closing, closed_vault).proposal(ctx.proposal) == s.proposal(
            ctx.proposal,
        ),
        withdraw_proposal::failure(
            cancel_offer::settled(s, closing, closed_vault),
            ctx,
            Some(vault),
        ) is None,
{
    cancel_offer::law_cancel_returns(s, closing, closed_vault);
    lemma_proposal_vault(s, ctx.proposal, vault);
}

/// Where a direct swap closes an offer, every proposal that was open stays
/// open, and a withdrawal that could succeed before can succeed after.
pub proof fn law_withdrawal_survives_swap(
    s: LedgerState,
    closing: ExecuteSwap,
    closed_vault: Address,
    ctx: WithdrawProposal,
    vault: Address,
)
    requires
        s.wf(),
        execute_swap::failure(s, closing, Some(closed_vault)) is None,
        withdraw_proposal::failure(s, ctx, Some(vault)) is None,
    ensures
        execute_swap::settled(s, closing, closed_vault).proposal(ctx.proposal) == s.proposal(
            ctx.proposal,
        ),
        withdraw_proposal::failure(
            execute_swap::settled(s, closing, closed_vault),
            ctx,
            Some(vault),
        ) is None,
{
    execute_swap::law_swap_exchanges(s, closing, closed_vault);
    lemma_proposal_vault(s, ctx.proposal, vault);
}

/// Where an acceptance closes an offer, every proposal but the accepted one
/// stays open, and a withdrawal of it that could succeed before can succeed
/// after. The accepted proposal is gone, and its withdrawal fails.
pub proof fn law_withdrawal_survives_accept(
    s: LedgerState,
    closing: AcceptProposal,
    held: Address,
    bid: Address,
    ctx: WithdrawProposal,
    vault: Address,
)
    requires
        s.wf(),
        accept_proposal::failure(s, closing, Some(held), Some(bid)) is None,
        withdraw_proposal::failure(s, ctx, Some(vault)) is None,
    ensures
        ctx.proposal != closing.proposal ==> accept_proposal::settled(
            s,
            closing,
            held,
            bid,
        ).proposal(ctx.proposal) == s.proposal(ctx.proposal) && withdraw_proposal::failure(
            accept_proposal::settled(s, closing, held, bid),
            ctx,
            Some(vault),
        ) is None,
        ctx.proposal == closing.proposal ==> withdraw_proposal::failure(
            accept_proposal::settled(s, closing, held, bid),
            ctx,
            Some(vault),
        ) == Some(withdraw_proposal::ErrorCode::ProposalNotFound),
{
    accept_proposal::law_accept_settles(s, closing, held, bid);
    lemma_proposal_vault(s, ctx.proposal, vault);
    lemma_proposal_vault(s, closing.proposal, bid);
    assert(s.vault(vault) is Some && s.vault(bid) is Some && s.vault(held) is Some);
}

/// A proposal can only be accepted while its offer is open: once the offer
/// that a proposal targets is closed, an acceptance of the proposal fails,
/// whoever calls and whichever offer the call names.
pub proof fn law_orphan_cannot_be_accepted(
    s: LedgerState,
    ctx: AcceptProposal,
    first: Option<Address>,
    second: Option<Address>,
)
    requires
        s.proposal(ctx.proposal) is Some,
        s.offer(s.proposal(ctx.proposal)->0.offer) is None,
    ensures
        accept_proposal::failure(s, ctx, first, second) is Some,
{
}

} // verus!

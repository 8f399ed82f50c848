//! The operations of the protocol as its callers see them, one function
//! each. Every call is one transaction: it takes effect as a whole or fails
//! and changes nothing.

use vstd::prelude::*;
use crate::address::Address;
use crate::instructions::accept_proposal;
use crate::instructions::accept_proposal::AcceptProposal;
use crate::instructions::cancel_offer;
use crate::instructions::cancel_offer::CancelOffer;
use crate::instructions::execute_swap;
use crate::instructions::execute_swap::ExecuteSwap;
use crate::instructions::initialize_offer;
use crate::instructions::initialize_offer::InitializeOffer;
use crate::instructions::submit_proposal;
use crate::instructions::submit_proposal::SubmitProposal;
use crate::instructions::withdraw_proposal;
use crate::instructions::withdraw_proposal::WithdrawProposal;
use crate::ledger::Ledger;
use crate::pda::{bump_of, derived_offer, derived_proposal, derived_vault, derived_vault_of};
use crate::state::offer::Offer;
use crate::state::proposal::Proposal;

verus! {

/// Creates an offer for the seller: see `initialize_offer::handler`.
pub fn initialize_offer(
    ledger: &mut Ledger,
    ctx: &InitializeOffer,
    offer_id: u64,
    token_amount_a: u64,
    token_mint_b: Address,
    token_amount_b: u64,
    allow_alternatives: bool,
) -> (result: Result<(), initialize_offer::ErrorCode>)
    requires
        old(ledger).wf(),
    ensures
        final(ledger).wf(),
        old(ledger)@.anchored() ==> final(ledger)@.anchored(),
        ({
            let found = derived_offer(old(ledger)@.program_id, ctx.seller, offer_id);
            initialize_offer::outcome(
                old(ledger)@,
                final(ledger)@,
                *ctx,
                Offer {
                    offer_id,
                    seller: ctx.seller,
                    token_mint_a: ctx.token_mint_a,
                    token_amount_a,
                    token_mint_b,
                    token_amount_b,
                    allow_alternatives,
                    bump: bump_of(found),
                },
                found,
                derived_vault_of(old(ledger)@.program_id, found),
                result,
            )
        }),
{
    initialize_offer::handler(
        ledger,
        ctx,
        offer_id,
        token_amount_a,
        token_mint_b,
        token_amount_b,
        allow_alternatives,
    )
}

/// Cancels an offer for its seller: see `cancel_offer::handler`.
pub fn cancel_offer(ledger: &mut Ledger, ctx: &CancelOffer) -> (result: Result<
    (),
    cancel_offer::ErrorCode,
>)
    requires
        old(ledger).wf(),
    ensures
        final(ledger).wf(),
        old(ledger)@.anchored() ==> final(ledger)@.anchored(),
        cancel_offer::outcome(
            old(ledger)@,
            final(ledger)@,
            *ctx,
            derived_vault(old(ledger)@.program_id, ctx.offer),
            result,
        ),
{
    cancel_offer::handler(ledger, ctx)
}

/// Executes the swap that an offer states, for a buyer: see
/// `execute_swap::handler`.
pub fn execute_swap(ledger: &mut Ledger, ctx: &ExecuteSwap) -> (result: Result<
    (),
    execute_swap::ErrorCode,
>)
    requires
        old(ledger).wf(),
    ensures
        final(ledger).wf(),
        old(ledger)@.anchored() ==> final(ledger)@.anchored(),
        execute_swap::outcome(
            old(ledger)@,
            final(ledger)@,
            *ctx,
            derived_vault(old(ledger)@.program_id, ctx.offer),
            result,
        ),
{
    execute_swap::handler(ledger, ctx)
}

/// Submits a proposal against an offer, for a buyer: see
/// `submit_proposal::handler`.
pub fn submit_proposal(
    ledger: &mut Ledger,
    ctx: &SubmitProposal,
    proposal_id: u64,
    proposed_amount: u64,
) -> (result: Result<(), submit_proposal::ErrorCode>)
    requires
        old(ledger).wf(),
    ensures
        final(ledger).wf(),
        old(ledger)@.anchored() ==> final(ledger)@.anchored(),
        ({
            let found = derived_proposal(
                old(ledger)@.program_id,
                ctx.offer,
                ctx.buyer,
                proposal_id,
            );
            submit_proposal::outcome(
                old(ledger)@,
                final(ledger)@,
                *ctx,
                Proposal {
                    proposal_id,
                    buyer: ctx.buyer,
                    offer: ctx.offer,
                    proposed_mint: ctx.proposed_mint,
                    proposed_amount,
                    bump: bump_of(found),
                },
                found,
                derived_vault_of(old(ledger)@.program_id, found),
                result,
            )
        }),
{
    submit_proposal::handler(ledger, ctx, proposal_id, proposed_amount)
}

/// Accepts a proposal for the offer's seller: see `accept_proposal::handler`.
pub fn accept_proposal(ledger: &mut Ledger, ctx: &AcceptProposal) -> (result: Result<
    (),
    accept_proposal::ErrorCode,
>)
    requires
        old(ledger).wf(),
    ensures
        final(ledger).wf(),
        old(ledger)@.anchored() ==> final(ledger)@.anchored(),
        accept_proposal::outcome(
            old(ledger)@,
            final(ledger)@,
            *ctx,
            derived_vault(old(ledger)@.program_id, ctx.offer),
            derived_vault(old(ledger)@.program_id, ctx.proposal),
            result,
        ),
{
    accept_proposal::handler(ledger, ctx)
}

/// Withdraws a proposal for its buyer: see `withdraw_proposal::handler`.
pub fn withdraw_proposal(ledger: &mut Ledger, ctx: &WithdrawProposal) -> (result: Result<
    (),
    withdraw_proposal::ErrorCode,
>)
    requires
        old(ledger).wf(),
    ensures
        final(ledger).wf(),
        old(ledger)@.anchored() ==> final(ledger)@.anchored(),
        withdraw_proposal::outcome(
            old(ledger)@,
            final(ledger)@,
            *ctx,
            derived_vault(old(ledger)@.program_id, ctx.proposal),
            result,
        ),
{
    withdraw_proposal::handler(ledger, ctx)
}

} // verus!

//! Withdrawal of a proposal: the buyer takes the bid back, and the proposal
//! and its vault cease to exist. Whether the offer that the proposal targets
//! is still open plays no part.

use vstd::prelude::*;
use crate::address::Address;
use crate::constants::{PROPOSAL_DEPOSIT, VAULT_DEPOSIT};
use crate::error::ErrorKind;
use crate::ledger::account::{Asset, ReceiverFault};
use crate::ledger::model::{
    lemma_anchored_kept, lemma_anchored_vault, lemma_close_fits, lemma_close_keeps_totals,
    lemma_proposal_vault, lemma_transfer_fits, lemma_transfer_keeps_totals, LedgerState,
};
use crate::ledger::Ledger;
use crate::pda::{derived_vault, vault_address};

verus! {

/// The accounts that a withdrawal names.
#[derive(Clone, Copy, Debug)]
pub struct WithdrawProposal {
    /// The proposal to withdraw.
    pub proposal: Address,
    /// Where the buyer wants the bid to go.
    pub buyer_token_account: Address,
    /// The caller.
    pub buyer: Address,
}

/// Why a withdrawal fails.
#[derive(Clone, Copy, Debug, PartialEq, Eq, Structural)]
pub enum ErrorCode {
    /// Only the buyer can withdraw the proposal.
    UnauthorizedBuyer,
    /// No open proposal is stored at the address named.
    ProposalNotFound,
    /// No address can be derived for the proposal's vault.
    AddressNotDerivable,
    /// The address given for the vault is not that of the proposal's vault.
    VaultMismatch,
    /// The receiving account is no asset account.
    ReceiverNotFound,
    /// The receiving account holds another asset than the bid.
    ReceiverMintMismatch,
    /// The receiving account is a vault.
    ReceiverInCustody,
}

impl ErrorCode {
    /// The class of the failure.
    pub open spec fn kind_of(self) -> ErrorKind {
        match self {
            ErrorCode::UnauthorizedBuyer => ErrorKind::Unauthorized,
            _ => ErrorKind::PreconditionFailed,
        }
    }

    /// The class of the failure.
    pub fn kind(&self) -> (kind: ErrorKind)
        ensures
            kind == self.kind_of(),
    {
        match self {
            ErrorCode::UnauthorizedBuyer => ErrorKind::Unauthorized,
            _ => ErrorKind::PreconditionFailed,
        }
    }
}

/// The failure that stands for a fault of the receiving account.
pub open spec fn receiver_error(fault: ReceiverFault) -> ErrorCode {
    match fault {
        ReceiverFault::NotFound => ErrorCode::ReceiverNotFound,
        ReceiverFault::MintMismatch => ErrorCode::ReceiverMintMismatch,
        ReceiverFault::InCustody => ErrorCode::ReceiverInCustody,
    }
}

/// Why the withdrawal fails in state `s`, if it does, where `vault` is the
/// address found for the proposal's vault. The checks come in this order:
/// the proposal, the caller, the vault, the receiving account.
pub open spec fn failure(s: LedgerState, ctx: WithdrawProposal, vault: Option<Address>) -> Option<
    ErrorCode,
> {
    match s.proposal(ctx.proposal) {
        None => Some(ErrorCode::ProposalNotFound),
        Some(proposal) => if ctx.buyer != proposal.buyer {
            Some(ErrorCode::UnauthorizedBuyer)
        } else {
            match vault {
                None => Some(ErrorCode::AddressNotDerivable),
                Some(vault) => if !s.is_vault_of(vault, ctx.proposal) {
                    Some(ErrorCode::VaultMismatch)
                } else {
                    match s.receiver_fault(ctx.buyer_token_account, proposal.proposed_mint) {
                        Some(fault) => Some(receiver_error(fault)),
                        None => None,
                    }
                },
            }
        },
    }
}

/// The state after the withdrawal: the vault's whole balance has moved to
/// the receiving account, the vault and the proposal are destroyed, and both
/// deposits are back with the buyer.
pub open spec fn settled(s: LedgerState, ctx: WithdrawProposal, vault: Address) -> LedgerState {
    let proposal = s.proposal(ctx.proposal)->0;
    s.transfer(vault, ctx.buyer_token_account, proposal.proposed_amount).close(
        vault,
        proposal.buyer,
    ).close(ctx.proposal, proposal.buyer)
}

/// What a call that answers `result` does to the ledger, which it takes from
/// state `s` to state `t`: it fails exactly where `failure` says so, and then
/// changes nothing; otherwise it leaves the state `settled`.
pub open spec fn outcome(
    s: LedgerState,
    t: LedgerState,
    ctx: WithdrawProposal,
    vault: Option<Address>,
    result: Result<(), ErrorCode>,
) -> bool {
    match result {
        Ok(()) => failure(s, ctx, vault) is None && t == settled(s, ctx, vault->0),
        Err(e) => failure(s, ctx, vault) == Some(e) && t == s,
    }
}

/// What a successful withdrawal leaves behind. The invariant holds. The
/// proposal and its vault no longer exist, and no record or vault is new.
/// The receiving account has grown by the amount of the bid, and the buyer's
/// wallet by the two deposits. No other account has changed, and the supply
/// of every asset is what it was.
pub proof fn law_withdraw_returns(s: LedgerState, ctx: WithdrawProposal, vault: Address)
    requires
        s.wf(),
        failure(s, ctx, Some(vault)) is None,
    ensures
        ({
            let t = settled(s, ctx, vault);
            let proposal = s.proposal(ctx.proposal)->0;
            &&& t.wf()
            &&& t.records_from(s)
            &&& !t.accounts.contains_key(ctx.proposal)
            &&& !t.accounts.contains_key(vault)
            &&& t.balance(ctx.buyer_token_account) == s.balance(ctx.buyer_token_account)
                + proposal.proposed_amount
            &&& t.funds(proposal.buyer) == s.funds(proposal.buyer) + PROPOSAL_DEPOSIT
                + VAULT_DEPOSIT
            &&& forall|key: Address|
                key != ctx.proposal && key != vault && key != ctx.buyer_token_account && key
                    != proposal.buyer ==> t.accounts.contains_key(key) == s.accounts.contains_key(
                    key,
                ) && t.accounts[key] == s.accounts[key]
            &&& forall|asset: Asset| #[trigger] t.supply(asset) == s.supply(asset)
        }),
{
    let proposal = s.proposal(ctx.proposal)->0;
    lemma_proposal_vault(s, ctx.proposal, vault);
    lemma_transfer_fits(s, vault, ctx.buyer_token_account);
    lemma_transfer_keeps_totals(s, vault, ctx.buyer_token_account, proposal.proposed_amount);
    let s1 = s.transfer(vault, ctx.buyer_token_account, proposal.proposed_amount);
    lemma_close_fits(s1, vault, proposal.buyer);
    lemma_close_keeps_totals(s1, vault, proposal.buyer);
    let s2 = s1.close(vault, proposal.buyer);
    lemma_close_fits(s2, ctx.proposal, proposal.buyer);
    lemma_close_keeps_totals(s2, ctx.proposal, proposal.buyer);
    let t = s2.close(ctx.proposal, proposal.buyer);
    assert forall|asset: Asset| #[trigger] t.supply(asset) == s.supply(asset) by {
        assert(s1.supply(asset) == s.supply(asset));
        assert(s2.supply(asset) == s1.supply(asset));
    }
    assert forall|key: Address| #[trigger]
        t.accounts.contains_key(key) && t.accounts[key].data is Offer implies t.offer_backed(
        key,
    ) by {
        assert(s.accounts.contains_key(key));
        assert(s.offer_backed(key));
        let held = choose|held: Address| #[trigger] s.is_vault_of(held, key);
        assert(t.is_vault_of(held, key));
    }
    assert forall|key: Address| #[trigger]
        t.accounts.contains_key(key) && t.accounts[key].data is Proposal implies t.proposal_backed(
    key) by {
        assert(s.accounts.contains_key(key));
        assert(s.proposal_backed(key));
        let held = choose|held: Address| #[trigger] s.is_vault_of(held, key);
        assert(t.is_vault_of(held, key));
    }
    assert forall|key: Address| #[trigger]
        t.accounts.contains_key(key) && t.accounts[key].data is Vault implies t.vault_bound(
        key,
    ) by {
        assert(s.accounts.contains_key(key));
        assert(s.vault_bound(key));
        assert(s.vault(key) is Some && s.vault(vault) is Some);
    }
    assert forall|first: Address, second: Address|
        (#[trigger] t.vault(first)) is Some && (#[trigger] t.vault(second)) is Some && t.vault(
            first,
        )->0.owner == t.vault(second)->0.owner implies first == second by {
        assert(s.vault(first) is Some);
        assert(s.vault(second) is Some);
    }
    assert forall|key: Address| #[trigger] t.vault(key) is Some implies s.is_vault_of(
        key,
        t.vault(key)->0.owner,
    ) by {
        assert(s.vault(key) is Some);
    }
}

/// Withdraws the proposal, for its buyer, where `vault` is the address found
/// for the proposal's vault.
///
/// Fails, and leaves the ledger as it was, exactly where `failure` says so.
/// Otherwise the ledger ends in the state `settled`: the proposal and its
/// vault are gone and the receiving account holds what the vault held.
pub fn apply(
    ledger: &mut Ledger,
    ctx: &WithdrawProposal,
    vault: Option<Address>,
) -> (result: Result<(), ErrorCode>)
    requires
        old(ledger).wf(),
    ensures
        final(ledger).wf(),
        outcome(old(ledger)@, final(ledger)@, *ctx, vault, result),
        final(ledger)@.records_from(old(ledger)@),
        result is Ok ==> {
            &&& !final(ledger)@.accounts.contains_key(ctx.proposal)
            &&& !final(ledger)@.accounts.contains_key(vault->0)
            &&& final(ledger)@.balance(ctx.buyer_token_account) == old(ledger)@.balance(
                ctx.buyer_token_account,
            ) + old(ledger)@.proposal(ctx.proposal)->0.proposed_amount
            &&& forall|asset: Asset| #[trigger]
                final(ledger)@.supply(asset) == old(ledger)@.supply(asset)
        },
{
    let proposal = match ledger.proposal(&ctx.proposal) {
        Some(proposal) => proposal,
        None => return Err(ErrorCode::ProposalNotFound),
    };
    if !proposal.is_buyer(&ctx.buyer) {
        return Err(ErrorCode::UnauthorizedBuyer);
    }
    let vault = match vault {
        Some(vault) => vault,
        None => return Err(ErrorCode::AddressNotDerivable),
    };
    if !ledger.is_vault_of(&vault, &ctx.proposal) {
        return Err(ErrorCode::VaultMismatch);
    }
    match ledger.check_receiver(&ctx.buyer_token_account, &proposal.proposed_mint) {
        Some(ReceiverFault::NotFound) => return Err(ErrorCode::ReceiverNotFound),
        Some(ReceiverFault::MintMismatch) => return Err(ErrorCode::ReceiverMintMismatch),
        Some(ReceiverFault::InCustody) => return Err(ErrorCode::ReceiverInCustody),
        None => {},
    }
    proof {
        lemma_proposal_vault(ledger@, ctx.proposal, vault);
        law_withdraw_returns(ledger@, *ctx, vault);
    }
    ledger.transfer(&vault, &ctx.buyer_token_account, &ctx.proposal, proposal.proposed_amount);
    ledger.close(&vault, &proposal.buyer, &ctx.proposal);
    ledger.close(&ctx.proposal, &proposal.buyer, &proposal.buyer);
    Ok(())
}

/// Withdraws the proposal, for its buyer. The proposal's vault is looked up
/// at the address derived from the proposal's.
///
/// Fails, and leaves the ledger as it was, exactly where `failure` says so of
/// the derived address. Otherwise the ledger ends in the state `settled`: the
/// proposal and its vault are gone and the receiving account holds what the
/// vault held. On an anchored ledger the derived address is that of the
/// proposal's vault, and the ledger stays anchored.
pub fn handler(ledger: &mut Ledger, ctx: &WithdrawProposal) -> (result: Result<(), ErrorCode>)
    requires
        old(ledger).wf(),
    ensures
        final(ledger).wf(),
        outcome(
            old(ledger)@,
            final(ledger)@,
            *ctx,
            derived_vault(old(ledger)@.program_id, ctx.proposal),
            result,
        ),
        old(ledger)@.anchored() ==> final(ledger)@.anchored() && result != Err::<(), ErrorCode>(
            ErrorCode::AddressNotDerivable,
        ) && result != Err::<(), ErrorCode>(ErrorCode::VaultMismatch),
        result is Ok ==> {
            &&& !final(ledger)@.accounts.contains_key(ctx.proposal)
            &&& final(ledger)@.balance(ctx.buyer_token_account) == old(ledger)@.balance(
                ctx.buyer_token_account,
            ) + old(ledger)@.proposal(ctx.proposal)->0.proposed_amount
            &&& forall|asset: Asset| #[trigger]
                final(ledger)@.supply(asset) == old(ledger)@.supply(asset)
        },
{
    let vault = vault_address(&ledger.program_id(), &ctx.proposal);
    proof {
        if ledger@.anchored() && ledger@.proposal(ctx.proposal) is Some {
            lemma_anchored_vault(ledger@, ctx.proposal);
        }
    }
    let ghost before = ledger@;
    let result = apply(ledger, ctx, vault);
    proof {
        if before.anchored() {
            lemma_anchored_kept(before, ledger@);
        }
    }
    result
}

} // verus!

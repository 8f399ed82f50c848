//! Submission of a proposal: a buyer bids another asset for what an offer
//! holds, and locks the bid in a vault of the proposal's own until the seller
//! accepts it or the buyer withdraws it.

use vstd::prelude::*;
use crate::address::Address;
use crate::constants::{PROPOSAL_DEPOSIT, VAULT_DEPOSIT};
use crate::error::ErrorKind;
use crate::ledger::account::{AccountData, Asset, SourceFault, TokenAccount};
use crate::ledger::model::{
    lemma_open_keeps_totals, lemma_transfer_fits, lemma_transfer_keeps_totals, LedgerState,
};
use crate::ledger::Ledger;
use crate::pda::{
    bump_of, derived_offer, derived_proposal, derived_vault, derived_vault_of, key_of,
    proposal_address, vault_address_of,
};
use crate::state::proposal::Proposal;

verus! {

/// The accounts that the submission of a proposal names.
#[derive(Clone, Copy, Debug)]
pub struct SubmitProposal {
    /// The offer that the proposal targets.
    pub offer: Address,
    /// The buyer's account that the bid comes out of.
    pub buyer_token_account: Address,
    /// The kind of the asset bid.
    pub proposed_mint: Address,
    /// The caller, who puts up the deposits.
    pub buyer: Address,
}

/// Why the submission of a proposal fails.
#[derive(Clone, Copy, Debug, PartialEq, Eq, Structural)]
pub enum ErrorCode {
    /// The offer does not allow alternative proposals.
    AlternativesNotAllowed,
    /// No open offer is stored at the address named.
    OfferNotFound,
    /// No address can be derived for the proposal or for its vault.
    AddressNotDerivable,
    /// The buyer already has an open proposal with this identifier against
    /// the offer.
    ProposalExists,
    /// The address of the proposal's vault is in use.
    VaultExists,
    /// The source of the bid is no asset account of an identity.
    SourceNotFound,
    /// The source holds another asset than the one bid.
    SourceMintMismatch,
    /// The source does not belong to the buyer.
    SourceNotOwned,
    /// The source holds less than the amount bid.
    InsufficientFunds,
    /// The buyer has no wallet that can put up the two deposits.
    InsufficientDeposit,
}

impl ErrorCode {
    /// The class of the failure.
    pub open spec fn kind_of(self) -> ErrorKind {
        match self {
            ErrorCode::SourceNotOwned => ErrorKind::Unauthorized,
            ErrorCode::ProposalExists => ErrorKind::DuplicateRecord,
            ErrorCode::VaultExists => ErrorKind::DuplicateRecord,
            ErrorCode::InsufficientFunds => ErrorKind::InsufficientBalance,
            ErrorCode::InsufficientDeposit => ErrorKind::InsufficientBalance,
            _ => ErrorKind::PreconditionFailed,
        }
    }

    /// The class of the failure.
    pub fn kind(&self) -> (kind: ErrorKind)
        ensures
            kind == self.kind_of(),
    {
        match self {
            ErrorCode::SourceNotOwned => ErrorKind::Unauthorized,
            ErrorCode::ProposalExists => ErrorKind::DuplicateRecord,
            ErrorCode::VaultExists => ErrorKind::DuplicateRecord,
            ErrorCode::InsufficientFunds => ErrorKind::InsufficientBalance,
            ErrorCode::InsufficientDeposit => ErrorKind::InsufficientBalance,
            _ => ErrorKind::PreconditionFailed,
        }
    }
}

/// The failure that stands for a fault of the source account.
pub open spec fn source_error(fault: SourceFault) -> ErrorCode {
    match fault {
        SourceFault::NotFound => ErrorCode::SourceNotFound,
        SourceFault::MintMismatch => ErrorCode::SourceMintMismatch,
        SourceFault::NotOwned => ErrorCode::SourceNotOwned,
        SourceFault::InsufficientFunds => ErrorCode::InsufficientFunds,
    }
}

/// Why no record can be opened at the addresses found for it and for its
/// vault, if none can: both must be found, be two addresses, and be unused.
pub open spec fn address_error(
    s: LedgerState,
    found: Option<(Address, u8)>,
    vault: Option<Address>,
) -> Option<ErrorCode> {
    match found {
        None => Some(ErrorCode::AddressNotDerivable),
        Some((proposal, _)) => if s.accounts.contains_key(proposal) {
            Some(ErrorCode::ProposalExists)
        } else {
            match vault {
                None => Some(ErrorCode::AddressNotDerivable),
                Some(vault) => if vault == proposal || s.accounts.contains_key(vault) {
                    Some(ErrorCode::VaultExists)
                } else {
                    None
                },
            }
        },
    }
}

/// Why the submission fails in state `s`, if it does, where `found` is the
/// address and bump found for the proposal and `vault` the address found for
/// its vault. The checks come in this order: the offer and whether it allows
/// alternatives, the proposal's address, the vault's address, the source of
/// the bid, the buyer's wallet and the deposits.
pub open spec fn failure(
    s: LedgerState,
    ctx: SubmitProposal,
    proposed_amount: u64,
    found: Option<(Address, u8)>,
    vault: Option<Address>,
) -> Option<ErrorCode> {
    match s.offer(ctx.offer) {
        None => Some(ErrorCode::OfferNotFound),
        Some(offer) => if !offer.allow_alternatives {
            Some(ErrorCode::AlternativesNotAllowed)
        } else {
            match address_error(s, found, vault) {
                Some(e) => Some(e),
                None => match s.source_fault(
                    ctx.buyer_token_account,
                    ctx.proposed_mint,
                    ctx.buyer,
                    proposed_amount,
                ) {
                    Some(fault) => Some(source_error(fault)),
                    None => if !s.is_wallet(ctx.buyer) || s.funds(ctx.buyer) < PROPOSAL_DEPOSIT
                        + VAULT_DEPOSIT {
                        Some(ErrorCode::InsufficientDeposit)
                    } else {
                        None
                    },
                },
            }
        },
    }
}

/// The state after the submission of the proposal `record` at `proposal`,
/// with its vault at `vault`: the proposal and an empty vault are open on the
/// buyer's deposits, and the bid has moved from the source into the vault.
pub open spec fn settled(
    s: LedgerState,
    ctx: SubmitProposal,
    record: Proposal,
    proposal: Address,
    vault: Address,
) -> LedgerState {
    s.open(ctx.buyer, proposal, AccountData::Proposal(record), PROPOSAL_DEPOSIT).open(
        ctx.buyer,
        vault,
        AccountData::Vault(
            TokenAccount { mint: record.proposed_mint, owner: proposal, amount: 0 },
        ),
        VAULT_DEPOSIT,
    ).transfer(ctx.buyer_token_account, vault, record.proposed_amount)
}

/// What a call that answers `result` does to the ledger, which it takes from
/// state `s` to state `t`, where `record` holds the terms asked for and the
/// bump found: it fails exactly where `failure` says so, and then changes
/// nothing; otherwise it leaves the state `settled`.
pub open spec fn outcome(
    s: LedgerState,
    t: LedgerState,
    ctx: SubmitProposal,
    record: Proposal,
    found: Option<(Address, u8)>,
    vault: Option<Address>,
    result: Result<(), ErrorCode>,
) -> bool {
    match result {
        Ok(()) => failure(s, ctx, record.proposed_amount, found, vault) is None && t == settled(
            s,
            ctx,
            record,
            key_of(found),
            vault->0,
        ),
        Err(e) => failure(s, ctx, record.proposed_amount, found, vault) == Some(e) && t == s,
    }
}

/// What a successful submission leaves behind. The invariant holds. The
/// proposal is open at the address found for it, with the terms given, and
/// the offer that it targets is open and allows alternatives. Its vault holds
/// exactly the amount bid, and the source holds that much less. The buyer's
/// wallet is down by the two deposits. No other account has changed, no other
/// record or vault is new, and the supply of every asset is what it was.
pub proof fn law_submit_escrows(
    s: LedgerState,
    ctx: SubmitProposal,
    record: Proposal,
    proposal: Address,
    vault: Address,
)
    requires
        s.wf(),
        record.buyer == ctx.buyer,
        record.offer == ctx.offer,
        record.proposed_mint == ctx.proposed_mint,
        failure(s, ctx, record.proposed_amount, Some((proposal, record.bump)), Some(vault))
            is None,
    ensures
        ({
            let t = settled(s, ctx, record, proposal, vault);
            &&& t.wf()
            &&& t.program_id == s.program_id
            &&& t.proposal(proposal) == Some(record)
            &&& t.offer(ctx.offer) is Some
            &&& t.offer(ctx.offer)->0.allow_alternatives
            &&& t.is_vault_of(vault, proposal)
            &&& t.vault(vault) == Some(
                TokenAccount {
                    mint: ctx.proposed_mint,
                    owner: proposal,
                    amount: record.proposed_amount,
                },
            )
            &&& t.balance(vault) == record.proposed_amount
            &&& t.balance(ctx.buyer_token_account) == s.balance(ctx.buyer_token_account)
                - record.proposed_amount
            &&& t.funds(ctx.buyer) == s.funds(ctx.buyer) - PROPOSAL_DEPOSIT - VAULT_DEPOSIT
            &&& forall|key: Address|
                key != proposal && key != vault && key != ctx.buyer_token_account && key
                    != ctx.buyer ==> t.accounts.contains_key(key) == s.accounts.contains_key(key)
                    && t.accounts[key] == s.accounts[key]
            &&& forall|key: Address| #[trigger] t.offer(key) == s.offer(key)
            &&& forall|key: Address|
                key != proposal ==> #[trigger] t.proposal(key) == s.proposal(key)
            &&& forall|key: Address| key != vault ==> #[trigger] t.vault(key) == s.vault(key)
            &&& forall|asset: Asset| #[trigger] t.supply(asset) == s.supply(asset)
        }),
{
    let data = AccountData::Proposal(record);
    let empty = AccountData::Vault(
        TokenAccount { mint: record.proposed_mint, owner: proposal, amount: 0 },
    );
    lemma_open_keeps_totals(s, ctx.buyer, proposal, data, PROPOSAL_DEPOSIT);
    let s1 = s.open(ctx.buyer, proposal, data, PROPOSAL_DEPOSIT);
    lemma_open_keeps_totals(s1, ctx.buyer, vault, empty, VAULT_DEPOSIT);
    let s2 = s1.open(ctx.buyer, vault, empty, VAULT_DEPOSIT);
    lemma_transfer_fits(s2, ctx.buyer_token_account, vault);
    lemma_transfer_keeps_totals(s2, ctx.buyer_token_account, vault, record.proposed_amount);
    let t = s2.transfer(ctx.buyer_token_account, vault, record.proposed_amount);
    assert forall|asset: Asset| #[trigger] t.supply(asset) == s.supply(asset) by {
        assert(s1.supply(asset) == s.supply(asset));
        assert(s2.supply(asset) == s1.supply(asset));
    }
    assert(t.is_vault_of(vault, proposal));
    assert forall|key: Address| #[trigger]
        t.accounts.contains_key(key) && t.accounts[key].data is Offer implies t.offer_backed(
        key,
    ) by {
        assert(s.accounts.contains_key(key));
        assert(s.offer_backed(key));
        let held = choose|held: Address| #[trigger] s.is_vault_of(held, key);
        assert(t.is_vault_of(held, key));
    }
    assert forall|key: Address| #[trigger]
        t.accounts.contains_key(key) && t.accounts[key].data is Proposal implies t.proposal_backed(
    key) by {
        if key != proposal {
            assert(s.accounts.contains_key(key));
            assert(s.proposal_backed(key));
            let held = choose|held: Address| #[trigger] s.is_vault_of(held, key);
            assert(t.is_vault_of(held, key));
        }
    }
    assert forall|key: Address| #[trigger]
        t.accounts.contains_key(key) && t.accounts[key].data is Vault implies t.vault_bound(
        key,
    ) by {
        if key != vault {
            assert(s.accounts.contains_key(key));
            assert(s.vault_bound(key));
        }
    }
    assert forall|first: Address, second: Address|
        (#[trigger] t.vault(first)) is Some && (#[trigger] t.vault(second)) is Some && t.vault(
            first,
        )->0.owner == t.vault(second)->0.owner implies first == second by {
        if first != vault {
            assert(s.vault(first) is Some);
            assert(s.accounts.contains_key(first));
            assert(s.vault_bound(first));
        }
        if second != vault {
            assert(s.vault(second) is Some);
            assert(s.accounts.contains_key(second));
            assert(s.vault_bound(second));
        }
    }
}

/// Opens a proposal of `proposed_amount` of the asset `ctx.proposed_mint`
/// against the offer, where `found` is the address and bump found for the
/// proposal and `vault` the address found for its vault.
///
/// Fails, and leaves the ledger as it was, exactly where `failure` says so;
/// among these, where the offer does not allow alternatives. Otherwise the
/// ledger ends in the state `settled`: the proposal is open with the terms
/// given, its vault holds exactly the amount bid, and the buyer's source
/// account holds that much less.
pub fn apply(
    ledger: &mut Ledger,
    ctx: &SubmitProposal,
    proposal_id: u64,
    proposed_amount: u64,
    found: Option<(Address, u8)>,
    vault: Option<Address>,
) -> (result: Result<(), ErrorCode>)
    requires
        old(ledger).wf(),
    ensures
        final(ledger).wf(),
        outcome(
            old(ledger)@,
            final(ledger)@,
            *ctx,
            Proposal {
                proposal_id,
                buyer: ctx.buyer,
                offer: ctx.offer,
                proposed_mint: ctx.proposed_mint,
                proposed_amount,
                bump: bump_of(found),
            },
            found,
            vault,
            result,
        ),
        result is Ok ==> {
            &&& final(ledger)@.proposal(key_of(found)) == Some(
                Proposal {
                    proposal_id,
                    buyer: ctx.buyer,
                    offer: ctx.offer,
                    proposed_mint: ctx.proposed_mint,
                    proposed_amount,
                    bump: bump_of(found),
                },
            )
            &&& final(ledger)@.is_vault_of(vault->0, key_of(found))
            &&& final(ledger)@.balance(vault->0) == proposed_amount
            &&& final(ledger)@.balance(ctx.buyer_token_account) == old(ledger)@.balance(
                ctx.buyer_token_account,
            ) - proposed_amount
            &&& forall|key: Address| #[trigger]
                final(ledger)@.offer(key) == old(ledger)@.offer(key)
            &&& forall|key: Address|
                key != key_of(found) ==> #[trigger] final(ledger)@.proposal(key)
                    == old(ledger)@.proposal(key)
            &&& forall|key: Address|
                key != vault->0 ==> #[trigger] final(ledger)@.vault(key) == old(ledger)@.vault(key)
            &&& forall|asset: Asset| #[trigger]
                final(ledger)@.supply(asset) == old(ledger)@.supply(asset)
        },
{
    let offer = match ledger.offer(&ctx.offer) {
        Some(offer) => offer,
        None => return Err(ErrorCode::OfferNotFound),
    };
    if !offer.allow_alternatives {
        return Err(ErrorCode::AlternativesNotAllowed);
    }
    let (proposal, bump) = match found {
        Some(found) => found,
        None => return Err(ErrorCode::AddressNotDerivable),
    };
    if ledger.account(&proposal).is_some() {
        return Err(ErrorCode::ProposalExists);
    }
    let vault = match vault {
        Some(vault) => vault,
        None => return Err(ErrorCode::AddressNotDerivable),
    };
    if vault == proposal || ledger.account(&vault).is_some() {
        return Err(ErrorCode::VaultExists);
    }
    match ledger.check_source(
        &ctx.buyer_token_account,
        &ctx.proposed_mint,
        &ctx.buyer,
        proposed_amount,
    ) {
        Some(SourceFault::NotFound) => return Err(ErrorCode::SourceNotFound),
        Some(SourceFault::MintMismatch) => return Err(ErrorCode::SourceMintMismatch),
        Some(SourceFault::NotOwned) => return Err(ErrorCode::SourceNotOwned),
        Some(SourceFault::InsufficientFunds) => return Err(ErrorCode::InsufficientFunds),
        None => {},
    }
    if !ledger.is_wallet(&ctx.buyer) || ledger.funds(&ctx.buyer) < PROPOSAL_DEPOSIT
        + VAULT_DEPOSIT {
        return Err(ErrorCode::InsufficientDeposit);
    }
    let record = Proposal {
        proposal_id,
        buyer: ctx.buyer,
        offer: ctx.offer,
        proposed_mint: ctx.proposed_mint,
        proposed_amount,
        bump,
    };
    proof {
        law_submit_escrows(ledger@, *ctx, record, proposal, vault);
    }
    ledger.open(&ctx.buyer, &proposal, AccountData::Proposal(record), PROPOSAL_DEPOSIT);
    ledger.open(
        &ctx.buyer,
        &vault,
        AccountData::Vault(TokenAccount { mint: ctx.proposed_mint, owner: proposal, amount: 0 }),
        VAULT_DEPOSIT,
    );
    ledger.transfer(&ctx.buyer_token_account, &vault, &ctx.buyer, proposed_amount);
    Ok(())
}

/// Opens a proposal of `proposed_amount` of the asset `ctx.proposed_mint`
/// against the offer, under the identifier `proposal_id` of the buyer's
/// choice. The proposal is opened at the address derived from the offer, the
/// buyer and the identifier, its vault at the address derived from the
/// proposal's.
///
/// Fails, and leaves the ledger as it was, exactly where `failure` says so of
/// the derived addresses; among these, where the offer does not allow
/// alternatives. Otherwise the ledger ends in the state `settled`: the
/// proposal's vault holds exactly the amount bid and the buyer's source
/// account holds that much less. An anchored ledger stays anchored.
pub fn handler(
    ledger: &mut Ledger,
    ctx: &SubmitProposal,
    proposal_id: u64,
    proposed_amount: u64,
) -> (result: Result<(), ErrorCode>)
    requires
        old(ledger).wf(),
    ensures
        final(ledger).wf(),
        ({
            let found = derived_proposal(
                old(ledger)@.program_id,
                ctx.offer,
                ctx.buyer,
                proposal_id,
            );
            let vault = derived_vault_of(old(ledger)@.program_id, found);
            &&& outcome(
                old(ledger)@,
                final(ledger)@,
                *ctx,
                Proposal {
                    proposal_id,
                    buyer: ctx.buyer,
                    offer: ctx.offer,
                    proposed_mint: ctx.proposed_mint,
                    proposed_amount,
                    bump: bump_of(found),
                },
                found,
                vault,
                result,
            )
            &&& result is Ok ==> {
                &&& final(ledger)@.balance(vault->0) == proposed_amount
                &&& final(ledger)@.balance(ctx.buyer_token_account) == old(ledger)@.balance(
                    ctx.buyer_token_account,
                ) - proposed_amount
                &&& forall|asset: Asset| #[trigger]
                    final(ledger)@.supply(asset) == old(ledger)@.supply(asset)
            }
        }),
        old(ledger)@.anchored() ==> final(ledger)@.anchored(),
{
    let program_id = ledger.program_id();
    let found = proposal_address(&program_id, &ctx.offer, &ctx.buyer, proposal_id);
    let vault = vault_address_of(&program_id, &found);
    let ghost before = ledger@;
    let result = apply(ledger, ctx, proposal_id, proposed_amount, found, vault);
    proof {
        if before.anchored() && result is Ok {
            let after = ledger@;
            assert(after.program_id == before.program_id);
            assert forall|key: Address| #[trigger] after.offer(key) is Some implies derived_offer(
                after.program_id,
                after.offer(key)->0.seller,
                after.offer(key)->0.offer_id,
            ) == Some((key, after.offer(key)->0.bump)) by {
                assert(before.offer(key) is Some);
            }
            assert forall|key: Address| #[trigger]
                after.proposal(key) is Some implies derived_proposal(
                after.program_id,
                after.proposal(key)->0.offer,
                after.proposal(key)->0.buyer,
                after.proposal(key)->0.proposal_id,
            ) == Some((key, after.proposal(key)->0.bump)) by {
                if key != key_of(found) {
                    assert(before.proposal(key) is Some);
                }
            }
            assert forall|key: Address| #[trigger] after.vault(key) is Some implies derived_vault(
                after.program_id,
                after.vault(key)->0.owner,
            ) == Some(key) by {
                if key != vault->0 {
                    assert(before.vault(key) is Some);
                }
            }
        }
    }
    result
}

} // verus!

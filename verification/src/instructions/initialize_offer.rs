//! Creation of an offer: the seller opens the offer record and its vault at
//! their derived addresses and moves the offered asset into the vault.

use vstd::prelude::*;
use crate::address::Address;
use crate::constants::{OFFER_DEPOSIT, VAULT_DEPOSIT};
use crate::error::ErrorKind;
use crate::ledger::account::{AccountData, Asset, SourceFault, TokenAccount};
use crate::ledger::model::{
    lemma_open_keeps_totals, lemma_transfer_fits, lemma_transfer_keeps_totals, LedgerState,
};
use crate::ledger::Ledger;
use crate::pda::{
    bump_of, derived_offer, derived_proposal, derived_vault, derived_vault_of, key_of,
    offer_address, vault_address_of,
};
use crate::state::offer::Offer;

verus! {

/// The accounts that the creation of an offer names.
#[derive(Clone, Copy, Debug)]
pub struct InitializeOffer {
    /// The seller's account that the offered asset comes out of.
    pub seller_token_account: Address,
    /// The kind of the offered asset.
    pub token_mint_a: Address,
    /// The caller, who puts up the deposits.
    pub seller: Address,
}

/// Why the creation of an offer fails.
#[derive(Clone, Copy, Debug, PartialEq, Eq, Structural)]
pub enum ErrorCode {
    /// No address can be derived for the offer or for its vault.
    AddressNotDerivable,
    /// The seller already has an open offer with this identifier.
    OfferExists,
    /// The address of the offer's vault is in use.
    VaultExists,
    /// The source of the offered asset is no asset account of an identity.
    SourceNotFound,
    /// The source holds another asset than the one offered.
    SourceMintMismatch,
    /// The source does not belong to the seller.
    SourceNotOwned,
    /// The source holds less than the amount offered.
    InsufficientFunds,
    /// The seller has no wallet that can put up the two deposits.
    InsufficientDeposit,
}

impl ErrorCode {
    /// The class of the failure.
    pub open spec fn kind_of(self) -> ErrorKind {
        match self {
            ErrorCode::SourceNotOwned => ErrorKind::Unauthorized,
            ErrorCode::OfferExists => ErrorKind::DuplicateRecord,
            ErrorCode::VaultExists => ErrorKind::DuplicateRecord,
            ErrorCode::InsufficientFunds => ErrorKind::InsufficientBalance,
            ErrorCode::InsufficientDeposit => ErrorKind::InsufficientBalance,
            _ => ErrorKind::PreconditionFailed,
        }
    }

    /// The class of the failure.
    pub fn kind(&self) -> (kind: ErrorKind)
        ensures
            kind == self.kind_of(),
    {
        match self {
            ErrorCode::SourceNotOwned => ErrorKind::Unauthorized,
            ErrorCode::OfferExists => ErrorKind::DuplicateRecord,
            ErrorCode::VaultExists => ErrorKind::DuplicateRecord,
            ErrorCode::InsufficientFunds => ErrorKind::InsufficientBalance,
            ErrorCode::InsufficientDeposit => ErrorKind::InsufficientBalance,
            _ => ErrorKind::PreconditionFailed,
        }
    }
}

/// The failure that stands for a fault of the source account.
pub open spec fn source_error(fault: SourceFault) -> ErrorCode {
    match fault {
        SourceFault::NotFound => ErrorCode::SourceNotFound,
        SourceFault::MintMismatch => ErrorCode::SourceMintMismatch,
        SourceFault::NotOwned => ErrorCode::SourceNotOwned,
        SourceFault::InsufficientFunds => ErrorCode::InsufficientFunds,
    }
}

/// Why no record can be opened at the addresses found for it and for its
/// vault, if none can: both must be found, be two addresses, and be unused.
pub open spec fn address_error(
    s: LedgerState,
    found: Option<(Address, u8)>,
    vault: Option<Address>,
) -> Option<ErrorCode> {
    match found {
        None => Some(ErrorCode::AddressNotDerivable),
        Some((offer, _)) => if s.accounts.contains_key(offer) {
            Some(ErrorCode::OfferExists)
        } else {
            match vault {
                None => Some(ErrorCode::AddressNotDerivable),
                Some(vault) => if vault == offer || s.accounts.contains_key(vault) {
                    Some(ErrorCode::VaultExists)
                } else {
                    None
                },
            }
        },
    }
}

/// Why the creation fails in state `s`, if it does, where `found` is the
/// address and bump found for the offer and `vault` the address found for
/// its vault. The checks come in this order: the offer's address, the vault's
/// address, the source of the asset, the seller's wallet and the deposits.
pub open spec fn failure(
    s: LedgerState,
    ctx: InitializeOffer,
    token_amount_a: u64,
    found: Option<(Address, u8)>,
    vault: Option<Address>,
) -> Option<ErrorCode> {
    match address_error(s, found, vault) {
        Some(e) => Some(e),
        None => match s.source_fault(
            ctx.seller_token_account,
            ctx.token_mint_a,
            ctx.seller,
            token_amount_a,
        ) {
            Some(fault) => Some(source_error(fault)),
            None => if !s.is_wallet(ctx.seller) || s.funds(ctx.seller) < OFFER_DEPOSIT
                + VAULT_DEPOSIT {
                Some(ErrorCode::InsufficientDeposit)
            } else {
                None
            },
        },
    }
}

/// The state after the creation of the offer `record` at `offer`, with its
/// vault at `vault`: the offer and an empty vault are open on the seller's
/// deposits, and the offered amount has moved from the source into the vault.
pub open spec fn settled(
    s: LedgerState,
    ctx: InitializeOffer,
    record: Offer,
    offer: Address,
    vault: Address,
) -> LedgerState {
    s.open(ctx.seller, offer, AccountData::Offer(record), OFFER_DEPOSIT).open(
        ctx.seller,
        vault,
        AccountData::Vault(
            TokenAccount { mint: record.token_mint_a, owner: offer, amount: 0 },
        ),
        VAULT_DEPOSIT,
    ).transfer(ctx.seller_token_account, vault, record.token_amount_a)
}

/// What a call that answers `result` does to the ledger, which it takes from
/// state `s` to state `t`, where `record` holds the terms asked for and the
/// bump found: it fails exactly where `failure` says so, and then changes
/// nothing; otherwise it leaves the state `settled`.
pub open spec fn outcome(
    s: LedgerState,
    t: LedgerState,
    ctx: InitializeOffer,
    record: Offer,
    found: Option<(Address, u8)>,
    vault: Option<Address>,
    result: Result<(), ErrorCode>,
) -> bool {
    match result {
        Ok(()) => failure(s, ctx, record.token_amount_a, found, vault) is None && t == settled(
            s,
            ctx,
            record,
            key_of(found),
            vault->0,
        ),
        Err(e) => failure(s, ctx, record.token_amount_a, found, vault) == Some(e) && t == s,
    }
}

/// What a successful creation leaves behind. The invariant holds. The offer
/// is open at the address found for it, with the terms given. Its vault
/// holds exactly the amount offered, and the source holds that much less.
/// The seller's wallet is down by the two deposits. No other account has
/// changed, no other record or vault is new, and the supply of every asset
/// is what it was.
pub proof fn law_create_escrows(
    s: LedgerState,
    ctx: InitializeOffer,
    record: Offer,
    offer: Address,
    vault: Address,
)
    requires
        s.wf(),
        record.seller == ctx.seller,
        record.token_mint_a == ctx.token_mint_a,
        failure(s, ctx, record.token_amount_a, Some((offer, record.bump)), Some(vault)) is None,
    ensures
        ({
            let t = settled(s, ctx, record, offer, vault);
            &&& t.wf()
            &&& t.program_id == s.program_id
            &&& t.offer(offer) == Some(record)
            &&& t.is_vault_of(vault, offer)
            &&& t.vault(vault) == Some(
                TokenAccount {
                    mint: ctx.token_mint_a,
                    owner: offer,
                    amount: record.token_amount_a,
                },
            )
            &&& t.balance(vault) == record.token_amount_a
            &&& t.balance(ctx.seller_token_account) == s.balance(ctx.seller_token_account)
                - record.token_amount_a
            &&& t.funds(ctx.seller) == s.funds(ctx.seller) - OFFER_DEPOSIT - VAULT_DEPOSIT
            &&& forall|key: Address|
                key != offer && key != vault && key != ctx.seller_token_account && key
                    != ctx.seller ==> t.accounts.contains_key(key) == s.accounts.contains_key(key)
                    && t.accounts[key] == s.accounts[key]
            &&& forall|key: Address| key != offer ==> #[trigger] t.offer(key) == s.offer(key)
            &&& forall|key: Address| #[trigger] t.proposal(key) == s.proposal(key)
            &&& forall|key: Address| key != vault ==> #[trigger] t.vault(key) == s.vault(key)
            &&& forall|asset: Asset| #[trigger] t.supply(asset) == s.supply(asset)
        }),
{
    let data = AccountData::Offer(record);
    let empty = AccountData::Vault(
        TokenAccount { mint: record.token_mint_a, owner: offer, amount: 0 },
    );
    lemma_open_keeps_totals(s, ctx.seller, offer, data, OFFER_DEPOSIT);
    let s1 = s.open(ctx.seller, offer, data, OFFER_DEPOSIT);
    lemma_open_keeps_totals(s1, ctx.seller, vault, empty, VAULT_DEPOSIT);
    let s2 = s1.open(ctx.seller, vault, empty, VAULT_DEPOSIT);
    lemma_transfer_fits(s2, ctx.seller_token_account, vault);
    lemma_transfer_keeps_totals(s2, ctx.seller_token_account, vault, record.token_amount_a);
    let t = s2.transfer(ctx.seller_token_account, vault, record.token_amount_a);
    assert forall|asset: Asset| #[trigger] t.supply(asset) == s.supply(asset) by {
        assert(s1.supply(asset) == s.supply(asset));
        assert(s2.supply(asset) == s1.supply(asset));
    }
    assert(t.is_vault_of(vault, offer));
    assert forall|key: Address| #[trigger]
        t.accounts.contains_key(key) && t.accounts[key].data is Offer implies t.offer_backed(
        key,
    ) by {
        if key != offer {
            assert(s.accounts.contains_key(key));
            assert(s.offer_backed(key));
            let held = choose|held: Address| #[trigger] s.is_vault_of(held, key);
            assert(t.is_vault_of(held, key));
        }
    }
    assert forall|key: Address| #[trigger]
        t.accounts.contains_key(key) && t.accounts[key].data is Proposal implies t.proposal_backed(
    key) by {
        assert(s.accounts.contains_key(key));
        assert(s.proposal_backed(key));
        let held = choose|held: Address| #[trigger] s.is_vault_of(held, key);
        assert(t.is_vault_of(held, key));
    }
    assert forall|key: Address| #[trigger]
        t.accounts.contains_key(key) && t.accounts[key].data is Vault implies t.vault_bound(
        key,
    ) by {
        if key != vault {
            assert(s.accounts.contains_key(key));
            assert(s.vault_bound(key));
        }
    }
    assert forall|first: Address, second: Address|
        (#[trigger] t.vault(first)) is Some && (#[trigger] t.vault(second)) is Some && t.vault(
            first,
        )->0.owner == t.vault(second)->0.owner implies first == second by {
        if first != vault {
            assert(s.vault(first) is Some);
            assert(s.accounts.contains_key(first));
            assert(s.vault_bound(first));
        }
        if second != vault {
            assert(s.vault(second) is Some);
            assert(s.accounts.contains_key(second));
            assert(s.vault_bound(second));
        }
    }
}

/// Opens an offer of `token_amount_a` of the asset `ctx.token_mint_a` for
/// `token_amount_b` of the asset `token_mint_b`, where `found` is the address
/// and bump found for the offer and `vault` the address found for its vault.
///
/// Fails, and leaves the ledger as it was, exactly where `failure` says so.
/// Otherwise the ledger ends in the state `settled`: the offer is open with
/// the terms given, its vault holds exactly the amount offered, and the
/// seller's source account holds that much less.
pub fn apply(
    ledger: &mut Ledger,
    ctx: &InitializeOffer,
    offer_id: u64,
    token_amount_a: u64,
    token_mint_b: Address,
    token_amount_b: u64,
    allow_alternatives: bool,
    found: Option<(Address, u8)>,
    vault: Option<Address>,
) -> (result: Result<(), ErrorCode>)
    requires
        old(ledger).wf(),
    ensures
        final(ledger).wf(),
        outcome(
            old(ledger)@,
            final(ledger)@,
            *ctx,
            Offer {
                offer_id,
                seller: ctx.seller,
                token_mint_a: ctx.token_mint_a,
                token_amount_a,
                token_mint_b,
                token_amount_b,
                allow_alternatives,
                bump: bump_of(found),
            },
            found,
            vault,
            result,
        ),
        result is Ok ==> {
            &&& final(ledger)@.offer(key_of(found)) == Some(
                Offer {
                    offer_id,
                    seller: ctx.seller,
                    token_mint_a: ctx.token_mint_a,
                    token_amount_a,
                    token_mint_b,
                    token_amount_b,
                    allow_alternatives,
                    bump: bump_of(found),
                },
            )
            &&& final(ledger)@.is_vault_of(vault->0, key_of(found))
            &&& final(ledger)@.balance(vault->0) == token_amount_a
            &&& final(ledger)@.balance(ctx.seller_token_account) == old(ledger)@.balance(
                ctx.seller_token_account,
            ) - token_amount_a
            &&& forall|key: Address|
                key != key_of(found) ==> #[trigger] final(ledger)@.offer(key) == old(ledger)@.offer(
                    key,
                )
            &&& forall|key: Address| #[trigger]
                final(ledger)@.proposal(key) == old(ledger)@.proposal(key)
            &&& forall|key: Address|
                key != vault->0 ==> #[trigger] final(ledger)@.vault(key) == old(ledger)@.vault(key)
            &&& forall|asset: Asset| #[trigger]
                final(ledger)@.supply(asset) == old(ledger)@.supply(asset)
        },
{
    let (offer, bump) = match found {
        Some(found) => found,
        None => return Err(ErrorCode::AddressNotDerivable),
    };
    if ledger.account(&offer).is_some() {
        return Err(ErrorCode::OfferExists);
    }
    let vault = match vault {
        Some(vault) => vault,
        None => return Err(ErrorCode::AddressNotDerivable),
    };
    if vault == offer || ledger.account(&vault).is_some() {
        return Err(ErrorCode::VaultExists);
    }
    match ledger.check_source(
        &ctx.seller_token_account,
        &ctx.token_mint_a,
        &ctx.seller,
        token_amount_a,
    ) {
        Some(SourceFault::NotFound) => return Err(ErrorCode::SourceNotFound),
        Some(SourceFault::MintMismatch) => return Err(ErrorCode::SourceMintMismatch),
        Some(SourceFault::NotOwned) => return Err(ErrorCode::SourceNotOwned),
        Some(SourceFault::InsufficientFunds) => return Err(ErrorCode::InsufficientFunds),
        None => {},
    }
    if !ledger.is_wallet(&ctx.seller) || ledger.funds(&ctx.seller) < OFFER_DEPOSIT + VAULT_DEPOSIT {
        return Err(ErrorCode::InsufficientDeposit);
    }
    let record = Offer {
        offer_id,
        seller: ctx.seller,
        token_mint_a: ctx.token_mint_a,
        token_amount_a,
        token_mint_b,
        token_amount_b,
        allow_alternatives,
        bump,
    };
    proof {
        law_create_escrows(ledger@, *ctx, record, offer, vault);
    }
    ledger.open(&ctx.seller, &offer, AccountData::Offer(record), OFFER_DEPOSIT);
    ledger.open(
        &ctx.seller,
        &vault,
        AccountData::Vault(TokenAccount { mint: ctx.token_mint_a, owner: offer, amount: 0 }),
        VAULT_DEPOSIT,
    );
    ledger.transfer(&ctx.seller_token_account, &vault, &ctx.seller, token_amount_a);
    Ok(())
}

/// Opens an offer of `token_amount_a` of the asset `ctx.token_mint_a` for
/// `token_amount_b` of the asset `token_mint_b`, under the identifier
/// `offer_id` of the seller's choice. The offer is opened at the address
/// derived from the seller and the identifier, its vault at the address
/// derived from the offer's.
///
/// Fails, and leaves the ledger as it was, exactly where `failure` says so of
/// the derived addresses. Otherwise the ledger ends in the state `settled`:
/// the vault holds exactly the amount offered and the seller's source account
/// holds that much less. An anchored ledger stays anchored.
pub fn handler(
    ledger: &mut Ledger,
    ctx: &InitializeOffer,
    offer_id: u64,
    token_amount_a: u64,
    token_mint_b: Address,
    token_amount_b: u64,
    allow_alternatives: bool,
) -> (result: Result<(), ErrorCode>)
    requires
        old(ledger).wf(),
    ensures
        final(ledger).wf(),
        ({
            let found = derived_offer(old(ledger)@.program_id, ctx.seller, offer_id);
            let vault = derived_vault_of(old(ledger)@.program_id, found);
            &&& outcome(
                old(ledger)@,
                final(ledger)@,
                *ctx,
                Offer {
                    offer_id,
                    seller: ctx.seller,
                    token_mint_a: ctx.token_mint_a,
                    token_amount_a,
                    token_mint_b,
                    token_amount_b,
                    allow_alternatives,
                    bump: bump_of(found),
                },
                found,
                vault,
                result,
            )
            &&& result is Ok ==> {
                &&& final(ledger)@.balance(vault->0) == token_amount_a
                &&& final(ledger)@.balance(ctx.seller_token_account) == old(ledger)@.balance(
                    ctx.seller_token_account,
                ) - token_amount_a
                &&& forall|asset: Asset| #[trigger]
                    final(ledger)@.supply(asset) == old(ledger)@.supply(asset)
            }
        }),
        old(ledger)@.anchored() ==> final(ledger)@.anchored(),
{
    let program_id = ledger.program_id();
    let found = offer_address(&program_id, &ctx.seller, offer_id);
    let vault = vault_address_of(&program_id, &found);
    let ghost before = ledger@;
    let result = apply(
        ledger,
        ctx,
        offer_id,
        token_amount_a,
        token_mint_b,
        token_amount_b,
        allow_alternatives,
        found,
        vault,
    );
    proof {
        if before.anchored() && result is Ok {
            let after = ledger@;
            assert(after.program_id == before.program_id);
            assert forall|key: Address| #[trigger] after.offer(key) is Some implies derived_offer(
                after.program_id,
                after.offer(key)->0.seller,
                after.offer(key)->0.offer_id,
            ) == Some((key, after.offer(key)->0.bump)) by {
                if key != key_of(found) {
                    assert(before.offer(key) is Some);
                }
            }
            assert forall|key: Address| #[trigger]
                after.proposal(key) is Some implies derived_proposal(
                after.program_id,
                after.proposal(key)->0.offer,
                after.proposal(key)->0.buyer,
                after.proposal(key)->0.proposal_id,
            ) == Some((key, after.proposal(key)->0.bump)) by {
                assert(before.proposal(key) is Some);
            }
            assert forall|key: Address| #[trigger]
                after.vault(key) is Some implies derived_vault(
                after.program_id,
                after.vault(key)->0.owner,
            ) == Some(key) by {
                if key != vault->0 {
                    assert(before.vault(key) is Some);
                }
            }
        }
    }
    result
}

} // verus!

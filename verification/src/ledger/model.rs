//! The ledger as a mathematical object: a finite map from addresses to
//! accounts, the totals held in it, and the steps that move value through it.

use vstd::prelude::*;
use crate::address::Address;
use crate::constants::{OFFER_DEPOSIT, PROPOSAL_DEPOSIT, VAULT_DEPOSIT};
use crate::ledger::account::{
    Account, AccountData, Asset, ReceiverFault, SourceFault, TokenAccount,
};
use crate::pda::{derived_offer, derived_proposal, derived_vault};
use crate::ledger::LedgerError;
use crate::state::offer::Offer;
use crate::state::proposal::Proposal;

verus! {

/// The sum of what all accounts hold of `asset`.
pub open spec fn total(accounts: Map<Address, Account>, asset: Asset) -> nat
    decreases accounts.dom().len(),
    when accounts.dom().finite()
{
    if accounts.dom().len() == 0 {
        0
    } else {
        let key = accounts.dom().choose();
        accounts[key].holding(asset) + total(accounts.remove(key), asset)
    }
}

/// A total is what any one account holds plus the total of the others.
pub proof fn lemma_total_remove(accounts: Map<Address, Account>, asset: Asset, key: Address)
    requires
        accounts.dom().finite(),
        accounts.contains_key(key),
    ensures
        total(accounts, asset) == accounts[key].holding(asset) + total(
            accounts.remove(key),
            asset,
        ),
    decreases accounts.dom().len(),
{
    let chosen = accounts.dom().choose();
    if chosen != key {
        lemma_total_remove(accounts.remove(chosen), asset, key);
        lemma_total_remove(accounts.remove(key), asset, chosen);
        assert(accounts.remove(chosen).remove(key) =~= accounts.remove(key).remove(chosen));
    }
}

/// Writing an account changes a total by what the new account holds, less
/// what the account that it replaces held.
pub proof fn lemma_total_insert(
    accounts: Map<Address, Account>,
    asset: Asset,
    key: Address,
    account: Account,
)
    requires
        accounts.dom().finite(),
    ensures
        total(accounts.insert(key, account), asset) + (if accounts.contains_key(key) {
            accounts[key].holding(asset)
        } else {
            0
        }) == total(accounts, asset) + account.holding(asset),
{
    let after = accounts.insert(key, account);
    lemma_total_remove(after, asset, key);
    if accounts.contains_key(key) {
        lemma_total_remove(accounts, asset, key);
        assert(after.remove(key) =~= accounts.remove(key));
    } else {
        assert(after.remove(key) =~= accounts);
    }
}

/// Two different accounts together hold no more than the total.
pub proof fn lemma_pair_within_total(
    accounts: Map<Address, Account>,
    asset: Asset,
    first: Address,
    second: Address,
)
    requires
        accounts.dom().finite(),
        accounts.contains_key(first),
        accounts.contains_key(second),
        first != second,
    ensures
        accounts[first].holding(asset) + accounts[second].holding(asset) <= total(accounts, asset),
{
    lemma_total_remove(accounts, asset, first);
    lemma_total_remove(accounts.remove(first), asset, second);
}

/// The state of a ledger: the program that the records belong to, and the
/// account stored at each address in use.
#[verifier::ext_equal]
pub struct LedgerState {
    pub program_id: Address,
    pub accounts: Map<Address, Account>,
}

impl Account {
    /// The account with its funds set to `funds`.
    pub open spec fn with_funds(self, funds: int) -> Account {
        Account { funds: funds as u64, data: self.data }
    }

    /// The account with its balance set to `amount`; an account that holds no
    /// balance as it is.
    pub open spec fn with_amount(self, amount: int) -> Account {
        match self.data {
            AccountData::Token(t) => Account {
                funds: self.funds,
                data: AccountData::Token(
                    TokenAccount { mint: t.mint, owner: t.owner, amount: amount as u64 },
                ),
            },
            AccountData::Vault(t) => Account {
                funds: self.funds,
                data: AccountData::Vault(
                    TokenAccount { mint: t.mint, owner: t.owner, amount: amount as u64 },
                ),
            },
            _ => self,
        }
    }
}

impl LedgerState {
    /// The asset account of an identity at `key`, if there is one.
    pub open spec fn token(self, key: Address) -> Option<TokenAccount> {
        if self.accounts.contains_key(key) {
            match self.accounts[key].data {
                AccountData::Token(t) => Some(t),
                _ => None,
            }
        } else {
            None
        }
    }

    /// The vault at `key`, if there is one.
    pub open spec fn vault(self, key: Address) -> Option<TokenAccount> {
        if self.accounts.contains_key(key) {
            match self.accounts[key].data {
                AccountData::Vault(t) => Some(t),
                _ => None,
            }
        } else {
            None
        }
    }

    /// The balance held at `key`, by an identity or in custody, if any is.
    pub open spec fn holder(self, key: Address) -> Option<TokenAccount> {
        if self.accounts.contains_key(key) {
            self.accounts[key].holder()
        } else {
            None
        }
    }

    /// The open offer at `key`, if there is one.
    pub open spec fn offer(self, key: Address) -> Option<Offer> {
        if self.accounts.contains_key(key) {
            match self.accounts[key].data {
                AccountData::Offer(o) => Some(o),
                _ => None,
            }
        } else {
            None
        }
    }

    /// The open proposal at `key`, if there is one.
    pub open spec fn proposal(self, key: Address) -> Option<Proposal> {
        if self.accounts.contains_key(key) {
            match self.accounts[key].data {
                AccountData::Proposal(p) => Some(p),
                _ => None,
            }
        } else {
            None
        }
    }

    /// Whether a wallet is stored at `key`.
    pub open spec fn is_wallet(self, key: Address) -> bool {
        self.accounts.contains_key(key) && self.accounts[key].is_wallet()
    }

    /// Whether an offer or a proposal is stored at `key`.
    pub open spec fn is_record(self, key: Address) -> bool {
        self.accounts.contains_key(key) && self.accounts[key].is_record()
    }

    /// Whether the account at `vault` is a vault in the custody of the record
    /// at `owner`.
    pub open spec fn is_vault_of(self, vault: Address, owner: Address) -> bool {
        self.vault(vault) matches Some(t) && t.owner == owner
    }

    /// The balance held at `key`; zero where none is.
    pub open spec fn balance(self, key: Address) -> nat {
        match self.holder(key) {
            Some(t) => t.amount as nat,
            None => 0,
        }
    }

    /// The funds of the account at `key`; zero where there is none.
    pub open spec fn funds(self, key: Address) -> nat {
        if self.accounts.contains_key(key) {
            self.accounts[key].funds as nat
        } else {
            0
        }
    }

    /// Why the account at `key` cannot receive a transfer of `mint`, if it
    /// cannot: it must be an asset account of that kind, and no vault.
    pub open spec fn receiver_fault(self, key: Address, mint: Address) -> Option<ReceiverFault> {
        match self.holder(key) {
            None => Some(ReceiverFault::NotFound),
            Some(t) => if self.vault(key) is Some {
                Some(ReceiverFault::InCustody)
            } else if t.mint != mint {
                Some(ReceiverFault::MintMismatch)
            } else {
                None
            },
        }
    }

    /// Why the account at `key` cannot fund a transfer of `amount` of `mint`
    /// that `owner` asks for, if it cannot.
    pub open spec fn source_fault(
        self,
        key: Address,
        mint: Address,
        owner: Address,
        amount: u64,
    ) -> Option<SourceFault> {
        match self.token(key) {
            None => Some(SourceFault::NotFound),
            Some(t) => if t.mint != mint {
                Some(SourceFault::MintMismatch)
            } else if t.owner != owner {
                Some(SourceFault::NotOwned)
            } else if t.amount < amount {
                Some(SourceFault::InsufficientFunds)
            } else {
                None
            },
        }
    }

    /// The sum of what all accounts hold of `asset`.
    #[verifier::inline]
    pub open spec fn supply(self, asset: Asset) -> nat {
        total(self.accounts, asset)
    }

    /// Whether a new account can be stored at `key`: the address must be
    /// unused, and no total may pass what 64 bits can count.
    pub open spec fn enrollment(self, key: Address, account: Account) -> Result<(), LedgerError> {
        if self.accounts.contains_key(key) {
            Err(LedgerError::AddressInUse)
        } else if exists|asset: Asset| #[trigger]
            total(self.accounts, asset) + account.holding(asset) > u64::MAX {
            Err(LedgerError::SupplyExceeded)
        } else {
            Ok(())
        }
    }

    /// The state with `account` stored at `key`.
    pub open spec fn enroll(self, key: Address, account: Account) -> LedgerState {
        LedgerState {
            program_id: self.program_id,
            accounts: self.accounts.insert(key, account),
        }
    }

    /// The state after `amount` has moved from the balance at `from` to the
    /// balance at `to`. Moving a balance onto itself changes nothing.
    pub open spec fn transfer(self, from: Address, to: Address, amount: u64) -> LedgerState {
        if from == to {
            self
        } else {
            let source = self.accounts[from];
            let target = self.accounts[to];
            LedgerState {
                program_id: self.program_id,
                accounts: self.accounts.insert(
                    from,
                    source.with_amount(self.balance(from) - amount),
                ).insert(to, target.with_amount(self.balance(to) + amount)),
            }
        }
    }

    /// The state after the account at `key` has been destroyed and its funds
    /// handed to the account at `recipient`.
    pub open spec fn close(self, key: Address, recipient: Address) -> LedgerState {
        let target = self.accounts[recipient];
        LedgerState {
            program_id: self.program_id,
            accounts: self.accounts.insert(
                recipient,
                target.with_funds(target.funds + self.accounts[key].funds),
            ).remove(key),
        }
    }

    /// The state after `payer` has put up `deposit` for a new account at `key`
    /// that holds `data`.
    pub open spec fn open(
        self,
        payer: Address,
        key: Address,
        data: AccountData,
        deposit: u64,
    ) -> LedgerState {
        let source = self.accounts[payer];
        LedgerState {
            program_id: self.program_id,
            accounts: self.accounts.insert(payer, source.with_funds(source.funds - deposit)).insert(
                key,
                Account { funds: deposit, data },
            ),
        }
    }

    /// The ledger is finite, and neither its funds nor the supply of any
    /// asset exceed what 64 bits can count.
    pub open spec fn bounded(self) -> bool {
        &&& self.accounts.dom().finite()
        &&& forall|asset: Asset| #[trigger] total(self.accounts, asset) <= u64::MAX
    }

    /// The offer at `key` stands on its deposit, its seller has a wallet, and
    /// a vault is in its custody.
    pub open spec fn offer_backed(self, key: Address) -> bool {
        let offer = self.accounts[key].data->Offer_0;
        &&& self.accounts[key].funds == OFFER_DEPOSIT
        &&& self.is_wallet(offer.seller)
        &&& exists|vault: Address| #[trigger] self.is_vault_of(vault, key)
    }

    /// The proposal at `key` stands on its deposit, its buyer has a wallet,
    /// and a vault is in its custody.
    pub open spec fn proposal_backed(self, key: Address) -> bool {
        let proposal = self.accounts[key].data->Proposal_0;
        &&& self.accounts[key].funds == PROPOSAL_DEPOSIT
        &&& self.is_wallet(proposal.buyer)
        &&& exists|vault: Address| #[trigger] self.is_vault_of(vault, key)
    }

    /// The vault at `key` stands on its deposit, and it holds exactly what
    /// the open record that owns it has in escrow: the amount and asset that
    /// an offer offers, or that a proposal bids.
    pub open spec fn vault_bound(self, key: Address) -> bool {
        let held = self.accounts[key].data->Vault_0;
        &&& self.accounts[key].funds == VAULT_DEPOSIT
        &&& self.accounts.contains_key(held.owner)
        &&& match self.accounts[held.owner].data {
            AccountData::Offer(offer) => held.mint == offer.token_mint_a && held.amount
                == offer.token_amount_a,
            AccountData::Proposal(proposal) => held.mint == proposal.proposed_mint && held.amount
                == proposal.proposed_amount,
            _ => false,
        }
    }

    /// Every open record has one vault, every vault belongs to one open
    /// record, and the vault holds exactly what the record has in escrow.
    pub open spec fn backed(self) -> bool {
        &&& forall|key: Address| #[trigger]
            self.accounts.contains_key(key) && self.accounts[key].data is Offer
                ==> self.offer_backed(key)
        &&& forall|key: Address| #[trigger]
            self.accounts.contains_key(key) && self.accounts[key].data is Proposal
                ==> self.proposal_backed(key)
        &&& forall|key: Address| #[trigger]
            self.accounts.contains_key(key) && self.accounts[key].data is Vault
                ==> self.vault_bound(key)
        &&& forall|first: Address, second: Address|
            (#[trigger] self.vault(first)) matches Some(a) && (#[trigger] self.vault(second))
                matches Some(b) && a.owner == b.owner ==> first == second
    }

    /// The invariant of the protocol: the ledger is bounded, and records and
    /// vaults back each other.
    pub open spec fn wf(self) -> bool {
        self.bounded() && self.backed()
    }

    /// Every record sits at the address derived from its own fields, and
    /// every vault at the address derived from its record.
    pub open spec fn anchored(self) -> bool {
        &&& forall|key: Address| #[trigger]
            self.offer(key) matches Some(offer) ==> derived_offer(
                self.program_id,
                offer.seller,
                offer.offer_id,
            ) == Some((key, offer.bump))
        &&& forall|key: Address| #[trigger]
            self.proposal(key) matches Some(proposal) ==> derived_proposal(
                self.program_id,
                proposal.offer,
                proposal.buyer,
                proposal.proposal_id,
            ) == Some((key, proposal.bump))
        &&& forall|key: Address| #[trigger]
            self.vault(key) matches Some(held) ==> derived_vault(self.program_id, held.owner)
                == Some(key)
    }
}

impl LedgerState {
    /// Who decides over the account at `key`: a wallet over itself, the owner
    /// over a balance, the depositor over a record.
    pub open spec fn authority(self, key: Address) -> Address {
        match self.accounts[key].data {
            AccountData::Wallet => key,
            AccountData::Token(t) => t.owner,
            AccountData::Vault(t) => t.owner,
            AccountData::Offer(offer) => offer.seller,
            AccountData::Proposal(proposal) => proposal.buyer,
        }
    }

    /// Every record and every vault of this state is one of `before`,
    /// unchanged but for what a vault holds.
    pub open spec fn records_from(self, before: LedgerState) -> bool {
        &&& self.program_id == before.program_id
        &&& forall|key: Address| #[trigger]
            self.offer(key) is Some ==> self.offer(key) == before.offer(key)
        &&& forall|key: Address| #[trigger]
            self.proposal(key) is Some ==> self.proposal(key) == before.proposal(key)
        &&& forall|key: Address| #[trigger]
            self.vault(key) matches Some(held) ==> before.is_vault_of(key, held.owner)
    }
}

/// A state whose records and vaults all come from an anchored state is
/// anchored.
pub proof fn lemma_anchored_kept(before: LedgerState, after: LedgerState)
    requires
        before.anchored(),
        after.records_from(before),
    ensures
        after.anchored(),
{
    assert forall|key: Address| #[trigger] after.offer(key) is Some implies derived_offer(
        after.program_id,
        after.offer(key)->0.seller,
        after.offer(key)->0.offer_id,
    ) == Some((key, after.offer(key)->0.bump)) by {
        assert(before.offer(key) is Some);
    }
    assert forall|key: Address| #[trigger] after.proposal(key) is Some implies derived_proposal(
        after.program_id,
        after.proposal(key)->0.offer,
        after.proposal(key)->0.buyer,
        after.proposal(key)->0.proposal_id,
    ) == Some((key, after.proposal(key)->0.bump)) by {
        assert(before.proposal(key) is Some);
    }
    assert forall|key: Address| #[trigger] after.vault(key) is Some implies derived_vault(
        after.program_id,
        after.vault(key)->0.owner,
    ) == Some(key) by {
        assert(before.vault(key) is Some);
    }
}

/// In a state that meets the invariant, the vault of an open offer holds
/// exactly what the offer offers.
pub proof fn lemma_offer_vault(s: LedgerState, offer: Address, vault: Address)
    requires
        s.wf(),
        s.offer(offer) is Some,
        s.is_vault_of(vault, offer),
    ensures
        s.accounts[vault] == (Account {
            funds: VAULT_DEPOSIT,
            data: AccountData::Vault(
                TokenAccount {
                    mint: s.offer(offer)->0.token_mint_a,
                    owner: offer,
                    amount: s.offer(offer)->0.token_amount_a,
                },
            ),
        }),
        s.accounts.contains_key(offer),
        s.offer_backed(offer),
{
    assert(s.accounts.contains_key(vault));
    assert(s.vault_bound(vault));
    assert(s.accounts.contains_key(offer));
}

/// In a state that meets the invariant, the vault of an open proposal holds
/// exactly what the proposal bids.
pub proof fn lemma_proposal_vault(s: LedgerState, proposal: Address, vault: Address)
    requires
        s.wf(),
        s.proposal(proposal) is Some,
        s.is_vault_of(vault, proposal),
    ensures
        s.accounts[vault] == (Account {
            funds: VAULT_DEPOSIT,
            data: AccountData::Vault(
                TokenAccount {
                    mint: s.proposal(proposal)->0.proposed_mint,
                    owner: proposal,
                    amount: s.proposal(proposal)->0.proposed_amount,
                },
            ),
        }),
        s.accounts.contains_key(proposal),
        s.proposal_backed(proposal),
{
    assert(s.accounts.contains_key(vault));
    assert(s.vault_bound(vault));
    assert(s.accounts.contains_key(proposal));
}

/// In an anchored state that meets the invariant, the address derived for
/// the vault of an open record is the address of its vault.
pub proof fn lemma_anchored_vault(s: LedgerState, record: Address)
    requires
        s.wf(),
        s.anchored(),
        s.is_record(record),
    ensures
        derived_vault(s.program_id, record) matches Some(vault) && s.is_vault_of(vault, record),
{
    if s.accounts[record].data is Offer {
        assert(s.offer_backed(record));
    } else {
        assert(s.proposal_backed(record));
    }
    let vault = choose|vault: Address| #[trigger] s.is_vault_of(vault, record);
    assert(s.vault(vault) is Some);
}

/// Destination balances cannot overflow: two accounts of one asset hold no
/// more between them than the supply.
pub proof fn lemma_transfer_fits(s: LedgerState, from: Address, to: Address)
    requires
        s.bounded(),
        from != to,
        s.holder(from) is Some,
        s.holder(to) is Some,
        s.holder(from)->0.mint == s.holder(to)->0.mint,
    ensures
        s.balance(from) + s.balance(to) <= u64::MAX,
{
    let asset = Asset::Token(s.holder(from)->0.mint);
    lemma_pair_within_total(s.accounts, asset, from, to);
    assert(total(s.accounts, asset) <= u64::MAX);
}

/// A transfer between two accounts of one asset leaves every total as it was.
pub proof fn lemma_transfer_keeps_totals(s: LedgerState, from: Address, to: Address, amount: u64)
    requires
        s.bounded(),
        s.holder(from) is Some,
        s.holder(to) is Some,
        s.holder(from)->0.mint == s.holder(to)->0.mint,
        amount <= s.balance(from),
    ensures
        s.transfer(from, to, amount).bounded(),
        forall|asset: Asset| #[trigger]
            total(s.transfer(from, to, amount).accounts, asset) == total(s.accounts, asset),
{
    if from != to {
        lemma_transfer_fits(s, from, to);
        let source = s.accounts[from].with_amount(s.balance(from) - amount);
        let target = s.accounts[to].with_amount(s.balance(to) + amount);
        let middle = s.accounts.insert(from, source);
        assert forall|asset: Asset| #[trigger]
            total(s.transfer(from, to, amount).accounts, asset) == total(s.accounts, asset) by {
            lemma_total_insert(s.accounts, asset, from, source);
            lemma_total_insert(middle, asset, to, target);
        }
        assert forall|asset: Asset| #[trigger]
            total(s.transfer(from, to, amount).accounts, asset) <= u64::MAX by {
            assert(total(s.accounts, asset) <= u64::MAX);
        }
    }
}

/// Funds handed over on a close cannot overflow: two accounts hold no more
/// funds between them than the ledger does.
pub proof fn lemma_close_fits(s: LedgerState, key: Address, recipient: Address)
    requires
        s.bounded(),
        key != recipient,
        s.accounts.contains_key(key),
        s.accounts.contains_key(recipient),
    ensures
        s.funds(key) + s.funds(recipient) <= u64::MAX,
{
    lemma_pair_within_total(s.accounts, Asset::Native, key, recipient);
    assert(total(s.accounts, Asset::Native) <= u64::MAX);
}

/// Closing an account that holds no asset leaves every total as it was.
pub proof fn lemma_close_keeps_totals(s: LedgerState, key: Address, recipient: Address)
    requires
        s.bounded(),
        key != recipient,
        s.accounts.contains_key(key),
        s.accounts.contains_key(recipient),
        s.balance(key) == 0,
    ensures
        s.close(key, recipient).bounded(),
        forall|asset: Asset| #[trigger]
            total(s.close(key, recipient).accounts, asset) == total(s.accounts, asset),
{
    lemma_close_fits(s, key, recipient);
    let target = s.accounts[recipient].with_funds(
        s.accounts[recipient].funds + s.accounts[key].funds,
    );
    let middle = s.accounts.insert(recipient, target);
    assert forall|asset: Asset| #[trigger]
        total(s.close(key, recipient).accounts, asset) == total(s.accounts, asset) by {
        lemma_total_insert(s.accounts, asset, recipient, target);
        lemma_total_remove(middle, asset, key);
    }
    assert forall|asset: Asset| #[trigger]
        total(s.close(key, recipient).accounts, asset) <= u64::MAX by {
        assert(total(s.accounts, asset) <= u64::MAX);
    }
}

/// Opening an account that holds no asset, on a deposit out of a wallet's
/// funds, leaves every total as it was.
pub proof fn lemma_open_keeps_totals(
    s: LedgerState,
    payer: Address,
    key: Address,
    data: AccountData,
    deposit: u64,
)
    requires
        s.bounded(),
        s.accounts.contains_key(payer),
        !s.accounts.contains_key(key),
        deposit <= s.funds(payer),
        forall|mint: Address| (Account { funds: deposit, data }).holding(Asset::Token(mint)) == 0,
    ensures
        s.open(payer, key, data, deposit).bounded(),
        forall|asset: Asset| #[trigger]
            total(s.open(payer, key, data, deposit).accounts, asset) == total(s.accounts, asset),
{
    let source = s.accounts[payer].with_funds(s.accounts[payer].funds - deposit);
    let middle = s.accounts.insert(payer, source);
    let fresh = Account { funds: deposit, data };
    assert forall|asset: Asset| #[trigger]
        total(s.open(payer, key, data, deposit).accounts, asset) == total(s.accounts, asset) by {
        lemma_total_insert(s.accounts, asset, payer, source);
        lemma_total_insert(middle, asset, key, fresh);
        match asset {
            Asset::Native => {},
            Asset::Token(mint) => {
                assert(fresh.holding(Asset::Token(mint)) == 0);
            },
        }
    }
    assert forall|asset: Asset| #[trigger]
        total(s.open(payer, key, data, deposit).accounts, asset) <= u64::MAX by {
        assert(total(s.accounts, asset) <= u64::MAX);
    }
}

} // verus!

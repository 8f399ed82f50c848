//! The ledger: keyed storage for wallets, asset accounts and records.

pub mod account;
pub mod model;
pub mod store;

use vstd::prelude::*;
use vstd::pervasive::unreached;
use crate::address::Address;
use crate::ledger::account::{
    Account, AccountData, Asset, ReceiverFault, SourceFault, TokenAccount,
};
use crate::ledger::model::{
    lemma_anchored_kept, lemma_close_fits, lemma_close_keeps_totals, lemma_open_keeps_totals,
    lemma_total_insert, lemma_transfer_fits, lemma_transfer_keeps_totals, total, LedgerState,
};
use crate::ledger::store::Store;
use crate::state::offer::Offer;
use crate::state::proposal::Proposal;

verus! {

/// Why the ledger refuses a new account.
#[derive(Clone, Copy, Debug, PartialEq, Eq, Structural)]
pub enum LedgerError {
    /// An account is already stored at the address.
    AddressInUse,
    /// The new account would lift a total over what 64 bits can count.
    SupplyExceeded,
}

/// A ledger in memory.
#[derive(Debug)]
pub struct Ledger {
    program_id: Address,
    store: Store,
}

impl View for Ledger {
    type V = LedgerState;

    /// The state that the ledger is in.
    closed spec fn view(&self) -> LedgerState {
        LedgerState { program_id: self.program_id, accounts: self.store@ }
    }
}

impl Ledger {
    /// The storage under the ledger is in order.
    pub closed spec fn consistent(&self) -> bool {
        self.store.wf()
    }

    /// The ledger is in order and its totals are bounded: what the steps of
    /// an operation keep while the operation is under way.
    pub open spec fn sound(&self) -> bool {
        self.consistent() && self@.bounded()
    }

    /// The ledger is in order and its state meets the protocol's invariant.
    pub open spec fn wf(&self) -> bool {
        self.consistent() && self@.wf()
    }

    /// An empty ledger for the records of `program_id`.
    pub fn new(program_id: Address) -> (ledger: Ledger)
        ensures
            ledger.wf(),
            ledger@.anchored(),
            ledger@ == (LedgerState { program_id, accounts: Map::empty() }),
            forall|asset: Asset| #[trigger] ledger@.supply(asset) == 0,
    {
        let ledger = Ledger { program_id, store: Store::new() };
        assert(ledger@.accounts.dom() =~= Set::empty());
        assert(ledger@ =~= (LedgerState { program_id, accounts: Map::empty() }));
        ledger
    }

    /// The program that the records of this ledger belong to.
    pub fn program_id(&self) -> (id: Address)
        ensures
            id == self@.program_id,
    {
        self.program_id
    }

    /// The account stored at `key`, if there is one.
    pub fn account(&self, key: &Address) -> (found: Option<Account>)
        requires
            self.consistent(),
        ensures
            found == (if self@.accounts.contains_key(*key) {
                Some(self@.accounts[*key])
            } else {
                None
            }),
    {
        self.store.get(key)
    }

    /// The asset account of an identity at `key`, if there is one.
    pub fn token_account(&self, key: &Address) -> (found: Option<TokenAccount>)
        requires
            self.consistent(),
        ensures
            found == self@.token(*key),
    {
        match self.store.get(key) {
            Some(Account { data: AccountData::Token(t), .. }) => Some(t),
            _ => None,
        }
    }

    /// The vault at `key`, if there is one.
    pub fn vault(&self, key: &Address) -> (found: Option<TokenAccount>)
        requires
            self.consistent(),
        ensures
            found == self@.vault(*key),
    {
        match self.store.get(key) {
            Some(Account { data: AccountData::Vault(t), .. }) => Some(t),
            _ => None,
        }
    }

    /// The balance held at `key`, by an identity or in custody, if any is.
    pub fn holder(&self, key: &Address) -> (found: Option<TokenAccount>)
        requires
            self.consistent(),
        ensures
            found == self@.holder(*key),
    {
        match self.store.get(key) {
            Some(Account { data: AccountData::Token(t), .. }) => Some(t),
            Some(Account { data: AccountData::Vault(t), .. }) => Some(t),
            _ => None,
        }
    }

    /// Whether the account at `vault` is a vault in the custody of the record
    /// at `owner`.
    pub fn is_vault_of(&self, vault: &Address, owner: &Address) -> (yes: bool)
        requires
            self.consistent(),
        ensures
            yes == self@.is_vault_of(*vault, *owner),
    {
        match self.vault(vault) {
            Some(held) => held.owner == *owner,
            None => false,
        }
    }

    /// The open offer at `key`, if there is one.
    pub fn offer(&self, key: &Address) -> (found: Option<Offer>)
        requires
            self.consistent(),
        ensures
            found == self@.offer(*key),
    {
        match self.store.get(key) {
            Some(Account { data: AccountData::Offer(offer), .. }) => Some(offer),
            _ => None,
        }
    }

    /// The open proposal at `key`, if there is one.
    pub fn proposal(&self, key: &Address) -> (found: Option<Proposal>)
        requires
            self.consistent(),
        ensures
            found == self@.proposal(*key),
    {
        match self.store.get(key) {
            Some(Account { data: AccountData::Proposal(proposal), .. }) => Some(proposal),
            _ => None,
        }
    }

    /// Whether a wallet is stored at `key`.
    pub fn is_wallet(&self, key: &Address) -> (yes: bool)
        requires
            self.consistent(),
        ensures
            yes == self@.is_wallet(*key),
    {
        match self.store.get(key) {
            Some(Account { data: AccountData::Wallet, .. }) => true,
            _ => false,
        }
    }

    /// Whether an offer or a proposal is stored at `key`.
    pub fn is_record(&self, key: &Address) -> (yes: bool)
        requires
            self.consistent(),
        ensures
            yes == self@.is_record(*key),
    {
        match self.store.get(key) {
            Some(Account { data: AccountData::Offer(_), .. }) => true,
            Some(Account { data: AccountData::Proposal(_), .. }) => true,
            _ => false,
        }
    }

    /// The balance held at `key`; zero where none is.
    pub fn balance(&self, key: &Address) -> (amount: u64)
        requires
            self.consistent(),
        ensures
            amount == self@.balance(*key),
    {
        match self.holder(key) {
            Some(t) => t.amount,
            None => 0,
        }
    }

    /// The funds of the account at `key`; zero where there is none.
    pub fn funds(&self, key: &Address) -> (amount: u64)
        requires
            self.consistent(),
        ensures
            amount == self@.funds(*key),
    {
        match self.store.get(key) {
            Some(account) => account.funds,
            None => 0,
        }
    }

    /// The sum of what all accounts hold of `asset`.
    pub fn supply(&self, asset: &Asset) -> (sum: u64)
        requires
            self.sound(),
        ensures
            sum == self@.supply(*asset),
    {
        let sum = self.store.total(asset);
        assert(total(self@.accounts, *asset) <= u64::MAX);
        sum as u64
    }

    /// Why the account at `key` cannot receive a transfer of `mint`, if it
    /// cannot.
    pub fn check_receiver(&self, key: &Address, mint: &Address) -> (fault: Option<ReceiverFault>)
        requires
            self.consistent(),
        ensures
            fault == self@.receiver_fault(*key, *mint),
    {
        match self.store.get(key) {
            Some(Account { data: AccountData::Vault(_), .. }) => Some(ReceiverFault::InCustody),
            Some(Account { data: AccountData::Token(t), .. }) => if t.mint != *mint {
                Some(ReceiverFault::MintMismatch)
            } else {
                None
            },
            _ => Some(ReceiverFault::NotFound),
        }
    }

    /// Why the account at `key` cannot fund a transfer of `amount` of `mint`
    /// that `owner` asks for, if it cannot.
    pub fn check_source(
        &self,
        key: &Address,
        mint: &Address,
        owner: &Address,
        amount: u64,
    ) -> (fault: Option<SourceFault>)
        requires
            self.consistent(),
        ensures
            fault == self@.source_fault(*key, *mint, *owner, amount),
    {
        match self.token_account(key) {
            None => Some(SourceFault::NotFound),
            Some(t) => if t.mint != *mint {
                Some(SourceFault::MintMismatch)
            } else if t.owner != *owner {
                Some(SourceFault::NotOwned)
            } else if t.amount < amount {
                Some(SourceFault::InsufficientFunds)
            } else {
                None
            },
        }
    }

    /// Stores a new wallet with the given funds at `key`. Refused where the
    /// address is in use, or where the ledger's funds would pass the bound.
    pub fn create_wallet(&mut self, key: Address, funds: u64) -> (result: Result<(), LedgerError>)
        requires
            old(self).wf(),
        ensures
            final(self).wf(),
            result == old(self)@.enrollment(key, Account { funds, data: AccountData::Wallet }),
            final(self)@ == (if result is Ok {
                old(self)@.enroll(key, Account { funds, data: AccountData::Wallet })
            } else {
                old(self)@
            }),
            old(self)@.anchored() ==> final(self)@.anchored(),
            result is Ok ==> final(self)@.supply(Asset::Native) == old(self)@.supply(Asset::Native)
                + funds,
            forall|mint: Address| #[trigger]
                final(self)@.supply(Asset::Token(mint)) == old(self)@.supply(Asset::Token(mint)),
    {
        self.enroll(key, Account { funds, data: AccountData::Wallet }, &Asset::Native, funds)
    }

    /// Stores a new asset account at `key` that holds `amount` of `mint` for
    /// `owner`. Refused where the address is in use, or where the supply of
    /// the asset would pass the bound.
    pub fn create_token_account(
        &mut self,
        key: Address,
        mint: Address,
        owner: Address,
        amount: u64,
    ) -> (result: Result<(), LedgerError>)
        requires
            old(self).wf(),
        ensures
            final(self).wf(),
            result == old(self)@.enrollment(
                key,
                Account {
                    funds: 0,
                    data: AccountData::Token(TokenAccount { mint, owner, amount }),
                },
            ),
            final(self)@ == (if result is Ok {
                old(self)@.enroll(
                    key,
                    Account {
                        funds: 0,
                        data: AccountData::Token(TokenAccount { mint, owner, amount }),
                    },
                )
            } else {
                old(self)@
            }),
            old(self)@.anchored() ==> final(self)@.anchored(),
            result is Ok ==> final(self)@.supply(Asset::Token(mint)) == old(self)@.supply(
                Asset::Token(mint),
            ) + amount,
            forall|asset: Asset|
                asset != Asset::Token(mint) ==> #[trigger] final(self)@.supply(asset)
                    == old(self)@.supply(asset),
    {
        self.enroll(
            key,
            Account { funds: 0, data: AccountData::Token(TokenAccount { mint, owner, amount }) },
            &Asset::Token(mint),
            amount,
        )
    }

    /// Stores a wallet or an asset account that brings `amount` of `asset`
    /// into the ledger and nothing else.
    fn enroll(&mut self, key: Address, account: Account, asset: &Asset, amount: u64) -> (result:
        Result<(), LedgerError>)
        requires
            old(self).wf(),
            account.data is Wallet || account.data is Token,
            account.holding(*asset) == amount,
            forall|other: Asset| other != *asset ==> #[trigger] account.holding(other) == 0,
        ensures
            final(self).wf(),
            result == old(self)@.enrollment(key, account),
            final(self)@ == (if result is Ok {
                old(self)@.enroll(key, account)
            } else {
                old(self)@
            }),
            old(self)@.anchored() ==> final(self)@.anchored(),
            forall|other: Asset| #[trigger]
                final(self)@.supply(other) == old(self)@.supply(other) + (if result is Ok {
                    account.holding(other)
                } else {
                    0
                }),
    {
        if self.store.contains(&key) {
            return Err(LedgerError::AddressInUse);
        }
        let before = self.store.total(asset);
        proof {
            assert forall|other: Asset| #[trigger]
                total(self@.accounts, other) + account.holding(other) <= u64::MAX <==> (other
                    == *asset ==> before + amount <= u64::MAX) by {
                assert(total(self@.accounts, other) <= u64::MAX);
            }
        }
        if before + amount as u128 > u64::MAX as u128 {
            assert(total(self@.accounts, *asset) + account.holding(*asset) > u64::MAX);
            return Err(LedgerError::SupplyExceeded);
        }
        let ghost s = self@;
        self.store.insert(key, account);
        proof {
            let t = self@;
            assert(t =~= s.enroll(key, account));
            assert forall|other: Asset| #[trigger]
                total(t.accounts, other) == total(s.accounts, other) + account.holding(other) by {
                lemma_total_insert(s.accounts, other, key, account);
            }
            assert forall|other: Asset| #[trigger] total(t.accounts, other) <= u64::MAX by {
                assert(total(s.accounts, other) + account.holding(other) <= u64::MAX);
            }
            assert forall|k: Address| #[trigger]
                t.accounts.contains_key(k) && t.accounts[k].data is Offer implies t.offer_backed(
                k,
            ) by {
                assert(s.accounts.contains_key(k));
                assert(s.offer_backed(k));
                let vault = choose|vault: Address| #[trigger] s.is_vault_of(vault, k);
                assert(t.is_vault_of(vault, k));
            }
            assert forall|k: Address| #[trigger]
                t.accounts.contains_key(k) && t.accounts[k].data
                    is Proposal implies t.proposal_backed(k) by {
                assert(s.accounts.contains_key(k));
                assert(s.proposal_backed(k));
                let vault = choose|vault: Address| #[trigger] s.is_vault_of(vault, k);
                assert(t.is_vault_of(vault, k));
            }
            assert forall|k: Address| #[trigger]
                t.accounts.contains_key(k) && t.accounts[k].data is Vault implies t.vault_bound(
                k,
            ) by {
                assert(s.accounts.contains_key(k));
                assert(s.vault_bound(k));
            }
            assert forall|first: Address, second: Address|
                (#[trigger] t.vault(first)) is Some && (#[trigger] t.vault(second)) is Some
                    && t.vault(first)->0.owner == t.vault(second)->0.owner implies first
                    == second by {
                assert(s.vault(first) is Some);
                assert(s.vault(second) is Some);
            }
            assert(t.records_from(s)) by {
                assert forall|k: Address| #[trigger] t.vault(k) is Some implies s.is_vault_of(
                    k,
                    t.vault(k)->0.owner,
                ) by {
                    assert(s.vault(k) is Some);
                }
            }
            if s.anchored() {
                lemma_anchored_kept(s, t);
            }
        }
        Ok(())
    }

    /// Moves `amount` from the balance at `from` to the balance at `to`, on
    /// the word of `authority`, who owns the balance at `from`.
    pub(crate) fn transfer(
        &mut self,
        from: &Address,
        to: &Address,
        authority: &Address,
        amount: u64,
    )
        requires
            old(self).sound(),
            old(self)@.holder(*from) is Some,
            old(self)@.holder(*to) is Some,
            old(self)@.holder(*from)->0.mint == old(self)@.holder(*to)->0.mint,
            old(self)@.authority(*from) == *authority,
            amount <= old(self)@.balance(*from),
        ensures
            final(self).sound(),
            final(self)@ == old(self)@.transfer(*from, *to, amount),
            forall|asset: Asset| #[trigger]
                final(self)@.supply(asset) == old(self)@.supply(asset),
    {
        if *from == *to {
            return ;
        }
        proof {
            lemma_transfer_fits(self@, *from, *to);
            lemma_transfer_keeps_totals(self@, *from, *to, amount);
        }
        let ghost s = self@;
        let source = self.stored(from);
        self.store.replace(from, with_amount(source, balance_of(&source) - amount));
        let target = self.stored(to);
        self.store.replace(to, with_amount(target, balance_of(&target) + amount));
        assert(self@ =~= s.transfer(*from, *to, amount));
    }

    /// Destroys the account at `key`, which holds no balance, on the word of
    /// `authority`, who decides over it, and hands its funds to the account
    /// at `recipient`.
    pub(crate) fn close(&mut self, key: &Address, recipient: &Address, authority: &Address)
        requires
            old(self).sound(),
            *key != *recipient,
            old(self)@.accounts.contains_key(*key),
            old(self)@.accounts.contains_key(*recipient),
            old(self)@.authority(*key) == *authority,
            old(self)@.balance(*key) == 0,
        ensures
            final(self).sound(),
            final(self)@ == old(self)@.close(*key, *recipient),
            forall|asset: Asset| #[trigger]
                final(self)@.supply(asset) == old(self)@.supply(asset),
    {
        proof {
            lemma_close_fits(self@, *key, *recipient);
            lemma_close_keeps_totals(self@, *key, *recipient);
        }
        let ghost s = self@;
        let closed = self.stored(key);
        let target = self.stored(recipient);
        self.store.replace(
            recipient,
            Account { funds: target.funds + closed.funds, data: target.data },
        );
        self.store.remove(key);
        assert(self@ =~= s.close(*key, *recipient));
    }

    /// Stores `data`, which holds no balance, in a new account at `key`, on a
    /// deposit out of the funds of the wallet at `payer`.
    pub(crate) fn open(&mut self, payer: &Address, key: &Address, data: AccountData, deposit: u64)
        requires
            old(self).sound(),
            old(self)@.accounts.contains_key(*payer),
            !old(self)@.accounts.contains_key(*key),
            deposit <= old(self)@.funds(*payer),
            forall|mint: Address|
                (Account { funds: deposit, data }).holding(Asset::Token(mint)) == 0,
        ensures
            final(self).sound(),
            final(self)@ == old(self)@.open(*payer, *key, data, deposit),
            forall|asset: Asset| #[trigger]
                final(self)@.supply(asset) == old(self)@.supply(asset),
    {
        proof {
            lemma_open_keeps_totals(self@, *payer, *key, data, deposit);
        }
        let ghost s = self@;
        let source = self.stored(payer);
        self.store.replace(payer, Account { funds: source.funds - deposit, data: source.data });
        self.store.insert(*key, Account { funds: deposit, data });
        assert(self@ =~= s.open(*payer, *key, data, deposit));
    }

    /// The account stored at an address in use.
    fn stored(&self, key: &Address) -> (account: Account)
        requires
            self.consistent(),
            self@.accounts.contains_key(*key),
        ensures
            account == self@.accounts[*key],
    {
        match self.store.get(key) {
            Some(account) => account,
            None => unreached(),
        }
    }
}

/// The balance that the account holds; zero where it holds none.
fn balance_of(account: &Account) -> (amount: u64)
    ensures
        amount == (match account.holder() {
            Some(t) => t.amount,
            None => 0,
        }),
{
    match &account.data {
        AccountData::Token(t) => t.amount,
        AccountData::Vault(t) => t.amount,
        _ => 0,
    }
}

/// The account with its balance set to `amount`; an account that holds no
/// balance as it is.
fn with_amount(account: Account, amount: u64) -> (out: Account)
    ensures
        out == account.with_amount(amount as int),
{
    match account.data {
        AccountData::Token(t) => Account {
            funds: account.funds,
            data: AccountData::Token(TokenAccount { mint: t.mint, owner: t.owner, amount }),
        },
        AccountData::Vault(t) => Account {
            funds: account.funds,
            data: AccountData::Vault(TokenAccount { mint: t.mint, owner: t.owner, amount }),
        },
        _ => account,
    }
}

} // verus!

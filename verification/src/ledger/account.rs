//! What the ledger stores at an address.

use vstd::prelude::*;
use crate::address::Address;
use crate::state::offer::Offer;
use crate::state::proposal::Proposal;

verus! {

/// An account that holds a balance of one kind of asset.
#[derive(Clone, Copy, Debug, PartialEq, Eq)]
pub struct TokenAccount {
    /// The kind of asset held.
    pub mint: Address,
    /// The identity or record that may move the balance out.
    pub owner: Address,
    /// The balance.
    pub amount: u64,
}

/// The content of an account.
#[derive(Clone, Copy, Debug, PartialEq, Eq)]
pub enum AccountData {
    /// An identity's wallet: it holds funds only.
    Wallet,
    /// A balance of one asset that belongs to an identity.
    Token(TokenAccount),
    /// A balance of one asset in the custody of the record that owns it.
    Vault(TokenAccount),
    /// An open offer.
    Offer(Offer),
    /// An open proposal.
    Proposal(Proposal),
}

/// An account: its funds and its content. The funds of a wallet are liquid;
/// those of any other account are the storage deposit behind it.
#[derive(Clone, Copy, Debug, PartialEq, Eq)]
pub struct Account {
    pub funds: u64,
    pub data: AccountData,
}

/// What a total is taken of: the ledger's own funds, or one kind of asset.
#[derive(Clone, Copy, Debug)]
pub enum Asset {
    Native,
    Token(Address),
}

/// Why an account cannot receive a transfer.
#[derive(Clone, Copy, Debug, PartialEq, Eq, Structural)]
pub enum ReceiverFault {
    /// No asset account is stored at the address.
    NotFound,
    /// The account holds another kind of asset.
    MintMismatch,
    /// The account is a vault: only its record moves value through it.
    InCustody,
}

/// Why an account cannot fund a transfer that an identity asks for.
#[derive(Clone, Copy, Debug, PartialEq, Eq, Structural)]
pub enum SourceFault {
    /// No asset account of an identity is stored at the address.
    NotFound,
    /// The account holds another kind of asset.
    MintMismatch,
    /// The account belongs to someone else.
    NotOwned,
    /// The balance is less than the amount.
    InsufficientFunds,
}

impl Account {
    /// How much of `asset` the account holds.
    pub open spec fn holding(self, asset: Asset) -> nat {
        match asset {
            Asset::Native => self.funds as nat,
            Asset::Token(mint) => match self.holder() {
                Some(t) => if t.mint == mint { t.amount as nat } else { 0 },
                None => 0,
            },
        }
    }

    /// The balance that the account holds, whether it belongs to an identity
    /// or is in custody.
    pub open spec fn holder(self) -> Option<TokenAccount> {
        match self.data {
            AccountData::Token(t) => Some(t),
            AccountData::Vault(t) => Some(t),
            _ => None,
        }
    }

    /// Whether the account is a wallet.
    pub open spec fn is_wallet(self) -> bool {
        self.data is Wallet
    }

    /// Whether the account is an offer or a proposal.
    pub open spec fn is_record(self) -> bool {
        self.data is Offer || self.data is Proposal
    }
}

} // verus!

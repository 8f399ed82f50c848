//! Fixed values of the protocol: the tags that addresses are derived from, and
//! the storage deposits that back each kind of record.

use vstd::prelude::*;
use crate::address::Address;

verus! {

/// The bytes of the address of the program that the protocol's records
/// belong to.
pub const ID: [u8; 32] = [
    229, 249, 45, 133, 177, 74, 238, 33, 247, 251, 152, 121, 29, 12, 74, 83,
    154, 91, 89, 219, 1, 93, 107, 60, 45, 153, 193, 71, 165, 0, 156, 1,
];

/// The address of the program that the protocol's records belong to.
pub fn id() -> (program: Address)
    ensures
        program.bytes == ID,
{
    Address::new(ID)
}

/// The tag from which an offer's address is derived: the bytes of `offer`.
pub const OFFER_SEED: [u8; 5] = [111, 102, 102, 101, 114];

/// The tag from which a proposal's address is derived: the bytes of `proposal`.
pub const PROPOSAL_SEED: [u8; 8] = [112, 114, 111, 112, 111, 115, 97, 108];

/// The tag from which a vault's address is derived: the bytes of `vault`.
pub const VAULT_SEED: [u8; 5] = [118, 97, 117, 108, 116];

/// The deposit that each stored byte costs its depositor.
pub const DEPOSIT_PER_BYTE: u64 = 6960;

/// The bytes that the ledger itself adds to every record.
pub const RECORD_OVERHEAD: u64 = 128;

/// The bytes that a vault takes up on the ledger.
pub const VAULT_LEN: u64 = 165;

/// The storage deposit behind an offer: 258 bytes at the rate per byte.
pub const OFFER_DEPOSIT: u64 = 1_795_680;

/// The storage deposit behind a proposal: 249 bytes at the rate per byte.
pub const PROPOSAL_DEPOSIT: u64 = 1_733_040;

/// The storage deposit behind a vault: 293 bytes at the rate per byte.
pub const VAULT_DEPOSIT: u64 = 2_039_280;

} // verus!

//! Derived addresses: where the records and vaults of the protocol live.
//!
//! The address of a record is a function of a tag, the identities and
//! identifiers that name the record, and the program that owns it. Whoever
//! knows those can compute the address again, so no operation has to trust a
//! reference that it was handed.

use vstd::prelude::*;
use vstd::bytes::{spec_u64_to_le_bytes, u64_to_le_bytes};
use anchor_lang::prelude::Pubkey;
use crate::address::Address;
use crate::constants::{OFFER_SEED, PROPOSAL_SEED, VAULT_SEED};
use crate::state::offer::Offer;
use crate::state::proposal::Proposal;

verus! {

/// What `Pubkey::try_find_program_address` returns for the given seeds and
/// program: the bytes of the derived address and its bump, or `None` where no
/// bump gives a valid address or a seed is too long.
pub uninterp spec fn program_address(seeds: Seq<Seq<u8>>, program_id: Seq<u8>) -> Option<
    (Seq<u8>, u8),
>;

/// The byte strings that a list of seeds holds.
pub open spec fn seed_bytes(seeds: Seq<Vec<u8>>) -> Seq<Seq<u8>> {
    Seq::new(seeds.len(), |i: int| seeds[i]@)
}

/// The address whose 32 bytes are the first 32 of `bytes`.
pub open spec fn address_of(bytes: Seq<u8>) -> Address {
    Address {
        bytes: [
            bytes[0],
            bytes[1],
            bytes[2],
            bytes[3],
            bytes[4],
            bytes[5],
            bytes[6],
            bytes[7],
            bytes[8],
            bytes[9],
            bytes[10],
            bytes[11],
            bytes[12],
            bytes[13],
            bytes[14],
            bytes[15],
            bytes[16],
            bytes[17],
            bytes[18],
            bytes[19],
            bytes[20],
            bytes[21],
            bytes[22],
            bytes[23],
            bytes[24],
            bytes[25],
            bytes[26],
            bytes[27],
            bytes[28],
            bytes[29],
            bytes[30],
            bytes[31],
        ],
    }
}

/// An address is the address of its own bytes.
pub proof fn lemma_address_of_view(address: Address)
    ensures
        address_of(address@) == address,
{
    assert(address_of(address@).bytes =~= address.bytes);
}

/// The address and bump derived from `seeds` for `program_id`, if any.
pub open spec fn derived(seeds: Seq<Seq<u8>>, program_id: Address) -> Option<(Address, u8)> {
    match program_address(seeds, program_id@) {
        Some((bytes, bump)) => Some((address_of(bytes), bump)),
        None => None,
    }
}

/// The address of a derivation that found one.
pub open spec fn key_of(found: Option<(Address, u8)>) -> Address {
    match found {
        Some((key, _)) => key,
        None => address_of(Seq::empty()),
    }
}

/// The bump of a derivation that found one.
pub open spec fn bump_of(found: Option<(Address, u8)>) -> u8 {
    match found {
        Some((_, bump)) => bump,
        None => 0,
    }
}

/// The seeds of an offer: the offer tag, the seller, and the identifier in
/// little-endian bytes.
pub open spec fn offer_seeds(seller: Address, offer_id: u64) -> Seq<Seq<u8>> {
    seq![OFFER_SEED@, seller@, spec_u64_to_le_bytes(offer_id)]
}

/// The seeds of a proposal: the proposal tag, the offer, the buyer, and the
/// identifier in little-endian bytes.
pub open spec fn proposal_seeds(offer: Address, buyer: Address, proposal_id: u64) -> Seq<Seq<u8>> {
    seq![PROPOSAL_SEED@, offer@, buyer@, spec_u64_to_le_bytes(proposal_id)]
}

/// The seeds of a vault: the vault tag and the record that owns the vault.
pub open spec fn vault_seeds(owner: Address) -> Seq<Seq<u8>> {
    seq![VAULT_SEED@, owner@]
}

/// The address and bump of the offer that `seller` names `offer_id`.
pub open spec fn derived_offer(program_id: Address, seller: Address, offer_id: u64) -> Option<
    (Address, u8),
> {
    derived(offer_seeds(seller, offer_id), program_id)
}

/// The address and bump of the proposal that `buyer` names `proposal_id`
/// against `offer`.
pub open spec fn derived_proposal(
    program_id: Address,
    offer: Address,
    buyer: Address,
    proposal_id: u64,
) -> Option<(Address, u8)> {
    derived(proposal_seeds(offer, buyer, proposal_id), program_id)
}

/// The address of the vault that belongs to the record at `owner`.
pub open spec fn derived_vault(program_id: Address, owner: Address) -> Option<Address> {
    match derived(vault_seeds(owner), program_id) {
        Some((vault, _)) => Some(vault),
        None => None,
    }
}

/// The address of the vault that belongs to the record that a derivation
/// found, if it found one.
pub open spec fn derived_vault_of(program_id: Address, found: Option<(Address, u8)>) -> Option<
    Address,
> {
    match found {
        Some((record, _)) => derived_vault(program_id, record),
        None => None,
    }
}

/// Calls `Pubkey::try_find_program_address` of the ledger's SDK. Trusted: the
/// call searches the bumps from 255 down for one whose hash with the seeds and
/// the program is a valid derived address, and depends on nothing but its
/// arguments; the contract gives what it returns the name `program_address`.
#[verifier::external_body]
fn try_find_program_address(seeds: &Vec<Vec<u8>>, program_id: &Address) -> (found: Option<
    (Address, u8),
>)
    ensures
        match found {
            Some((address, bump)) => program_address(seed_bytes(seeds@), program_id@) == Some(
                (address@, bump),
            ),
            None => program_address(seed_bytes(seeds@), program_id@) is None,
        },
{
    let parts: Vec<&[u8]> = seeds.iter().map(|seed| seed.as_slice()).collect();
    let id = Pubkey::new_from_array(program_id.bytes);
    match Pubkey::try_find_program_address(&parts, &id) {
        Some((key, bump)) => Some((Address { bytes: key.to_bytes() }, bump)),
        None => None,
    }
}

/// The address and bump derived from `seeds` for `program_id`, if any.
pub fn find_address(seeds: &Vec<Vec<u8>>, program_id: &Address) -> (found: Option<(Address, u8)>)
    ensures
        found == derived(seed_bytes(seeds@), *program_id),
{
    let found = try_find_program_address(seeds, program_id);
    proof {
        if let Some((address, _)) = found {
            lemma_address_of_view(address);
        }
    }
    found
}

/// The bytes of a tag as a vector.
fn tag_bytes<const N: usize>(tag: &[u8; N]) -> (out: Vec<u8>)
    ensures
        out@ == tag@,
{
    let mut out: Vec<u8> = Vec::new();
    let mut i: usize = 0;
    while i < N
        invariant
            i <= N,
            out@ == tag@.take(i as int),
        decreases N - i,
    {
        out.push(tag[i]);
        assert(tag@.take(i as int).push(tag@[i as int]) == tag@.take(i + 1));
        i += 1;
    }
    assert(tag@.take(N as int) == tag@);
    out
}

/// The seeds of an offer as byte vectors.
fn offer_seed_list(seller: &Address, offer_id: u64) -> (seeds: Vec<Vec<u8>>)
    ensures
        seed_bytes(seeds@) == offer_seeds(*seller, offer_id),
{
    let mut seeds: Vec<Vec<u8>> = Vec::new();
    seeds.push(tag_bytes(&OFFER_SEED));
    seeds.push(seller.to_vec());
    seeds.push(u64_to_le_bytes(offer_id));
    assert(seed_bytes(seeds@) =~= offer_seeds(*seller, offer_id));
    seeds
}

/// The seeds of a proposal as byte vectors.
fn proposal_seed_list(offer: &Address, buyer: &Address, proposal_id: u64) -> (seeds: Vec<Vec<u8>>)
    ensures
        seed_bytes(seeds@) == proposal_seeds(*offer, *buyer, proposal_id),
{
    let mut seeds: Vec<Vec<u8>> = Vec::new();
    seeds.push(tag_bytes(&PROPOSAL_SEED));
    seeds.push(offer.to_vec());
    seeds.push(buyer.to_vec());
    seeds.push(u64_to_le_bytes(proposal_id));
    assert(seed_bytes(seeds@) =~= proposal_seeds(*offer, *buyer, proposal_id));
    seeds
}

/// The seeds with the bump as one more seed of a single byte.
fn with_bump(seeds: Vec<Vec<u8>>, bump: u8) -> (out: Vec<Vec<u8>>)
    ensures
        seed_bytes(out@) == seed_bytes(seeds@).push(seq![bump]),
{
    let mut out = seeds;
    let mut last: Vec<u8> = Vec::new();
    last.push(bump);
    out.push(last);
    assert(seed_bytes(out@) =~= seed_bytes(seeds@).push(seq![bump]));
    out
}

/// The address and bump of the offer that `seller` names `offer_id`.
pub fn offer_address(program_id: &Address, seller: &Address, offer_id: u64) -> (found: Option<
    (Address, u8),
>)
    ensures
        found == derived_offer(*program_id, *seller, offer_id),
{
    let seeds = offer_seed_list(seller, offer_id);
    find_address(&seeds, program_id)
}

/// The address and bump of the proposal that `buyer` names `proposal_id`
/// against `offer`.
pub fn proposal_address(
    program_id: &Address,
    offer: &Address,
    buyer: &Address,
    proposal_id: u64,
) -> (found: Option<(Address, u8)>)
    ensures
        found == derived_proposal(*program_id, *offer, *buyer, proposal_id),
{
    let seeds = proposal_seed_list(offer, buyer, proposal_id);
    find_address(&seeds, program_id)
}

/// The address of the vault that belongs to the record at `owner`.
pub fn vault_address(program_id: &Address, owner: &Address) -> (found: Option<Address>)
    ensures
        found == derived_vault(*program_id, *owner),
{
    let mut seeds: Vec<Vec<u8>> = Vec::new();
    seeds.push(tag_bytes(&VAULT_SEED));
    seeds.push(owner.to_vec());
    assert(seed_bytes(seeds@) =~= vault_seeds(*owner));
    match find_address(&seeds, program_id) {
        Some((vault, _)) => Some(vault),
        None => None,
    }
}

/// The address of the vault that belongs to the record that a derivation
/// found, if it found one.
pub fn vault_address_of(program_id: &Address, found: &Option<(Address, u8)>) -> (vault: Option<
    Address,
>)
    ensures
        vault == derived_vault_of(*program_id, *found),
{
    match found {
        Some((record, _)) => vault_address(program_id, record),
        None => None,
    }
}

/// The seeds by which an offer signs for its vault: the seeds of its
/// address, and its bump as a last seed of one byte.
pub fn offer_signer_seeds(offer: &Offer) -> (seeds: Vec<Vec<u8>>)
    ensures
        seed_bytes(seeds@) == offer_seeds(offer.seller, offer.offer_id).push(seq![offer.bump]),
{
    with_bump(offer_seed_list(&offer.seller, offer.offer_id), offer.bump)
}

/// The seeds by which a proposal signs for its vault: the seeds of its
/// address, and its bump as a last seed of one byte.
pub fn proposal_signer_seeds(proposal: &Proposal) -> (seeds: Vec<Vec<u8>>)
    ensures
        seed_bytes(seeds@) == proposal_seeds(
            proposal.offer,
            proposal.buyer,
            proposal.proposal_id,
        ).push(seq![proposal.bump]),
{
    with_bump(
        proposal_seed_list(&proposal.offer, &proposal.buyer, proposal.proposal_id),
        proposal.bump,
    )
}

} // verus!

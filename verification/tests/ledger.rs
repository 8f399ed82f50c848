use anchor_lang::prelude::Pubkey;
use fair_swap::address::Address;
use fair_swap::constants::{
    id, DEPOSIT_PER_BYTE, ID, OFFER_DEPOSIT, OFFER_SEED, PROPOSAL_DEPOSIT, PROPOSAL_SEED,
    RECORD_OVERHEAD, VAULT_DEPOSIT, VAULT_LEN, VAULT_SEED,
};
use fair_swap::ledger::account::{
    Account, AccountData, Asset, ReceiverFault, SourceFault, TokenAccount,
};
use fair_swap::ledger::{Ledger, LedgerError};
use fair_swap::pda::{
    find_address, offer_address, offer_signer_seeds, proposal_address, proposal_signer_seeds,
    vault_address,
};
use fair_swap::state::offer::Offer;
use fair_swap::state::proposal::Proposal;

fn addr(n: u8) -> Address {
    Address::new([n; 32])
}

fn key_of(address: &Address) -> Pubkey {
    Pubkey::new_from_array(address.to_bytes())
}

#[test]
fn address_is_its_bytes() {
    let mut bytes = [0u8; 32];
    for (i, byte) in bytes.iter_mut().enumerate() {
        *byte = i as u8;
    }
    let address = Address::new(bytes);
    assert_eq!(address.to_bytes(), bytes);
    assert_eq!(address.to_vec(), bytes.to_vec());
    assert_eq!(address, Address::new(bytes));
    let mut last = bytes;
    last[31] = 0;
    assert_ne!(address, Address::new(last));
    let mut first = bytes;
    first[0] = 1;
    assert_ne!(address, Address::new(first));
}

#[test]
fn program_id_is_the_declared_one() {
    let declared: Pubkey = "GUijjz5VNLUkPSw9KKvH5ntUNoJuSDbWQDXZSrQgx9fW".parse().unwrap();
    assert_eq!(id().to_bytes(), declared.to_bytes());
    assert_eq!(ID, declared.to_bytes());
}

#[test]
fn seeds_spell_their_tags() {
    assert_eq!(&OFFER_SEED, b"offer");
    assert_eq!(&PROPOSAL_SEED, b"proposal");
    assert_eq!(&VAULT_SEED, b"vault");
}

#[test]
fn deposits_follow_the_sizes() {
    assert_eq!(Offer::LEN, 130);
    assert_eq!(Proposal::LEN, 121);
    assert_eq!(OFFER_DEPOSIT, (RECORD_OVERHEAD + Offer::LEN as u64) * DEPOSIT_PER_BYTE);
    assert_eq!(PROPOSAL_DEPOSIT, (RECORD_OVERHEAD + Proposal::LEN as u64) * DEPOSIT_PER_BYTE);
    assert_eq!(VAULT_DEPOSIT, (RECORD_OVERHEAD + VAULT_LEN) * DEPOSIT_PER_BYTE);
    assert_eq!(OFFER_DEPOSIT, 1_795_680);
    assert_eq!(PROPOSAL_DEPOSIT, 1_733_040);
    assert_eq!(VAULT_DEPOSIT, 2_039_280);
}

#[test]
fn offer_address_is_the_derived_address() {
    let seller = addr(1);
    let id_bytes = 7u64.to_le_bytes();
    let expected =
        Pubkey::find_program_address(&[b"offer", &seller.to_bytes(), &id_bytes], &key_of(&id()));
    let found = offer_address(&id(), &seller, 7).unwrap();
    assert_eq!(found.0.to_bytes(), expected.0.to_bytes());
    assert_eq!(found.1, expected.1);
    assert_ne!(found.0, seller);
    assert_ne!(found.0, id());
    assert_ne!(found.0, offer_address(&id(), &seller, 8).unwrap().0);
    assert_ne!(found.0, offer_address(&id(), &addr(2), 7).unwrap().0);
    assert_ne!(found.0, offer_address(&addr(9), &seller, 7).unwrap().0);
}

#[test]
fn proposal_address_is_the_derived_address() {
    let offer = addr(4);
    let buyer = addr(2);
    let id_bytes = 300u64.to_le_bytes();
    let expected = Pubkey::find_program_address(
        &[b"proposal", &offer.to_bytes(), &buyer.to_bytes(), &id_bytes],
        &key_of(&id()),
    );
    let found = proposal_address(&id(), &offer, &buyer, 300).unwrap();
    assert_eq!(found.0.to_bytes(), expected.0.to_bytes());
    assert_eq!(found.1, expected.1);
    assert_ne!(found.0, proposal_address(&id(), &buyer, &offer, 300).unwrap().0);
}

#[test]
fn vault_address_is_the_derived_address() {
    let owner = addr(4);
    let expected = Pubkey::find_program_address(&[b"vault", &owner.to_bytes()], &key_of(&id()));
    let found = vault_address(&id(), &owner).unwrap();
    assert_eq!(found.to_bytes(), expected.0.to_bytes());
    assert_ne!(found, owner);
}

#[test]
fn no_address_for_a_seed_that_is_too_long() {
    assert_eq!(find_address(&vec![vec![0u8; 33]], &id()), None);
    assert_eq!(find_address(&vec![vec![1u8]; 16], &id()), None);
    assert!(find_address(&vec![vec![0u8; 32]], &id()).is_some());
    assert!(find_address(&Vec::new(), &id()).is_some());
}

#[test]
fn signer_seeds_give_the_record_address() {
    let seller = addr(1);
    let (key, bump) = offer_address(&id(), &seller, 5).unwrap();
    let offer = Offer {
        offer_id: 5,
        seller,
        token_mint_a: addr(10),
        token_amount_a: 1,
        token_mint_b: addr(11),
        token_amount_b: 2,
        allow_alternatives: false,
        bump,
    };
    let seeds = offer_signer_seeds(&offer);
    assert_eq!(
        seeds,
        vec![b"offer".to_vec(), seller.to_vec(), 5u64.to_le_bytes().to_vec(), vec![bump]]
    );
    let parts: Vec<&[u8]> = seeds.iter().map(|seed| seed.as_slice()).collect();
    let made = Pubkey::create_program_address(&parts, &key_of(&id())).unwrap();
    assert_eq!(made.to_bytes(), key.to_bytes());

    let buyer = addr(2);
    let (at, bump) = proposal_address(&id(), &key, &buyer, 6).unwrap();
    let proposal = Proposal {
        proposal_id: 6,
        buyer,
        offer: key,
        proposed_mint: addr(12),
        proposed_amount: 3,
        bump,
    };
    let seeds = proposal_signer_seeds(&proposal);
    assert_eq!(
        seeds,
        vec![
            b"proposal".to_vec(),
            key.to_vec(),
            buyer.to_vec(),
            6u64.to_le_bytes().to_vec(),
            vec![bump]
        ]
    );
    let parts: Vec<&[u8]> = seeds.iter().map(|seed| seed.as_slice()).collect();
    let made = Pubkey::create_program_address(&parts, &key_of(&id())).unwrap();
    assert_eq!(made.to_bytes(), at.to_bytes());
}

#[test]
fn record_predicates() {
    let offer = Offer {
        offer_id: 5,
        seller: addr(1),
        token_mint_a: addr(10),
        token_amount_a: 1,
        token_mint_b: addr(11),
        token_amount_b: 2,
        allow_alternatives: false,
        bump: 255,
    };
    assert!(offer.is_seller(&addr(1)));
    assert!(!offer.is_seller(&addr(2)));
    assert!(offer.is_payment_kind(&addr(11)));
    assert!(!offer.is_payment_kind(&addr(10)));
    let proposal = Proposal {
        proposal_id: 6,
        buyer: addr(2),
        offer: addr(4),
        proposed_mint: addr(12),
        proposed_amount: 3,
        bump: 254,
    };
    assert!(proposal.is_buyer(&addr(2)));
    assert!(!proposal.is_buyer(&addr(1)));
    assert!(proposal.targets(&addr(4)));
    assert!(!proposal.targets(&addr(5)));
}

#[test]
fn new_ledger_is_empty() {
    let ledger = Ledger::new(id());
    assert_eq!(ledger.program_id(), id());
    assert_eq!(ledger.account(&addr(1)), None);
    assert_eq!(ledger.balance(&addr(1)), 0);
    assert_eq!(ledger.funds(&addr(1)), 0);
    assert_eq!(ledger.supply(&Asset::Native), 0);
    assert_eq!(ledger.supply(&Asset::Token(addr(10))), 0);
    assert!(!ledger.is_wallet(&addr(1)));
    assert!(!ledger.is_record(&addr(1)));
}

#[test]
fn wallets_and_accounts_are_stored() {
    let mut ledger = Ledger::new(id());
    assert_eq!(ledger.create_wallet(addr(1), 500), Ok(()));
    assert_eq!(ledger.create_token_account(addr(20), addr(10), addr(1), 70), Ok(()));
    assert_eq!(ledger.create_token_account(addr(21), addr(10), addr(2), 30), Ok(()));
    assert_eq!(ledger.create_token_account(addr(22), addr(11), addr(1), 9), Ok(()));
    assert_eq!(ledger.account(&addr(1)), Some(Account { funds: 500, data: AccountData::Wallet }));
    assert!(ledger.is_wallet(&addr(1)));
    assert!(!ledger.is_wallet(&addr(20)));
    assert!(!ledger.is_record(&addr(1)));
    assert_eq!(ledger.funds(&addr(1)), 500);
    assert_eq!(ledger.funds(&addr(20)), 0);
    assert_eq!(ledger.balance(&addr(1)), 0);
    assert_eq!(ledger.balance(&addr(20)), 70);
    assert_eq!(
        ledger.token_account(&addr(21)),
        Some(TokenAccount { mint: addr(10), owner: addr(2), amount: 30 })
    );
    assert_eq!(ledger.token_account(&addr(1)), None);
    assert_eq!(ledger.holder(&addr(21)), ledger.token_account(&addr(21)));
    assert_eq!(ledger.holder(&addr(1)), None);
    assert_eq!(ledger.vault(&addr(21)), None);
    assert!(!ledger.is_vault_of(&addr(21), &addr(2)));
    assert_eq!(ledger.offer(&addr(20)), None);
    assert_eq!(ledger.proposal(&addr(20)), None);
    assert_eq!(ledger.supply(&Asset::Native), 500);
    assert_eq!(ledger.supply(&Asset::Token(addr(10))), 100);
    assert_eq!(ledger.supply(&Asset::Token(addr(11))), 9);
    assert_eq!(ledger.supply(&Asset::Token(addr(12))), 0);
}

#[test]
fn an_address_holds_one_account() {
    let mut ledger = Ledger::new(id());
    assert_eq!(ledger.create_wallet(addr(1), 500), Ok(()));
    assert_eq!(ledger.create_wallet(addr(1), 1), Err(LedgerError::AddressInUse));
    assert_eq!(
        ledger.create_token_account(addr(1), addr(10), addr(1), 0),
        Err(LedgerError::AddressInUse)
    );
    assert_eq!(ledger.funds(&addr(1)), 500);
    assert!(ledger.is_wallet(&addr(1)));
}

#[test]
fn totals_stay_within_64_bits() {
    let mut ledger = Ledger::new(id());
    assert_eq!(ledger.create_wallet(addr(1), u64::MAX - 1), Ok(()));
    assert_eq!(ledger.create_wallet(addr(2), 2), Err(LedgerError::SupplyExceeded));
    assert_eq!(ledger.create_wallet(addr(2), 1), Ok(()));
    assert_eq!(ledger.supply(&Asset::Native), u64::MAX);
    assert_eq!(ledger.create_wallet(addr(3), 0), Ok(()));
    assert_eq!(ledger.create_token_account(addr(20), addr(10), addr(1), u64::MAX), Ok(()));
    assert_eq!(
        ledger.create_token_account(addr(21), addr(10), addr(1), 1),
        Err(LedgerError::SupplyExceeded)
    );
    assert_eq!(ledger.create_token_account(addr(21), addr(11), addr(1), 1), Ok(()));
    assert_eq!(ledger.account(&addr(2)).unwrap().funds, 1);
}

#[test]
fn receiver_and_source_checks() {
    let mut ledger = Ledger::new(id());
    assert_eq!(ledger.create_wallet(addr(1), 500), Ok(()));
    assert_eq!(ledger.create_token_account(addr(20), addr(10), addr(1), 70), Ok(()));
    assert_eq!(ledger.check_receiver(&addr(20), &addr(10)), None);
    assert_eq!(ledger.check_receiver(&addr(20), &addr(11)), Some(ReceiverFault::MintMismatch));
    assert_eq!(ledger.check_receiver(&addr(1), &addr(10)), Some(ReceiverFault::NotFound));
    assert_eq!(ledger.check_receiver(&addr(9), &addr(10)), Some(ReceiverFault::NotFound));
    assert_eq!(ledger.check_source(&addr(20), &addr(10), &addr(1), 70), None);
    assert_eq!(
        ledger.check_source(&addr(20), &addr(10), &addr(1), 71),
        Some(SourceFault::InsufficientFunds)
    );
    assert_eq!(
        ledger.check_source(&addr(20), &addr(10), &addr(2), 1),
        Some(SourceFault::NotOwned)
    );
    assert_eq!(
        ledger.check_source(&addr(20), &addr(11), &addr(2), 1),
        Some(SourceFault::MintMismatch)
    );
    assert_eq!(ledger.check_source(&addr(9), &addr(10), &addr(1), 0), Some(SourceFault::NotFound));
}

use fair_swap::address::Address;
use fair_swap::constants::{id, OFFER_DEPOSIT, PROPOSAL_DEPOSIT, VAULT_DEPOSIT};
use fair_swap::error::ErrorKind;
use fair_swap::fair_swap::{
    accept_proposal, cancel_offer, execute_swap, initialize_offer, submit_proposal,
    withdraw_proposal,
};
use fair_swap::instructions::accept_proposal::AcceptProposal;
use fair_swap::instructions::cancel_offer::CancelOffer;
use fair_swap::instructions::execute_swap::ExecuteSwap;
use fair_swap::instructions::initialize_offer::InitializeOffer;
use fair_swap::instructions::submit_proposal::SubmitProposal;
use fair_swap::instructions::withdraw_proposal::WithdrawProposal;
use fair_swap::instructions::{
    accept_proposal as accept, cancel_offer as cancel, execute_swap as swap,
    initialize_offer as create, submit_proposal as submit, withdraw_proposal as withdraw,
};
use fair_swap::ledger::account::{Asset, TokenAccount};
use fair_swap::ledger::Ledger;
use fair_swap::pda::{offer_address, proposal_address, vault_address};
use fair_swap::state::offer::Offer;
use fair_swap::state::proposal::Proposal;

const FUNDS: u64 = 10_000_000;

fn addr(n: u8) -> Address {
    Address::new([n; 32])
}

fn seller() -> Address {
    addr(1)
}

fn buyer() -> Address {
    addr(2)
}

fn other() -> Address {
    addr(3)
}

fn mint_a() -> Address {
    addr(10)
}

fn mint_b() -> Address {
    addr(11)
}

fn mint_c() -> Address {
    addr(12)
}

fn seller_a() -> Address {
    addr(20)
}

fn seller_b() -> Address {
    addr(21)
}

fn seller_c() -> Address {
    addr(22)
}

fn buyer_a() -> Address {
    addr(30)
}

fn buyer_b() -> Address {
    addr(31)
}

fn buyer_c() -> Address {
    addr(32)
}

fn other_a() -> Address {
    addr(40)
}

fn other_b() -> Address {
    addr(41)
}

/// Three wallets, and for each an account of the assets that it deals in.
fn world() -> Ledger {
    let mut ledger = Ledger::new(id());
    for who in [seller(), buyer(), other()] {
        assert_eq!(ledger.create_wallet(who, FUNDS), Ok(()));
    }
    let accounts = [
        (seller_a(), mint_a(), seller(), 1000),
        (seller_b(), mint_b(), seller(), 0),
        (seller_c(), mint_c(), seller(), 0),
        (buyer_a(), mint_a(), buyer(), 0),
        (buyer_b(), mint_b(), buyer(), 500),
        (buyer_c(), mint_c(), buyer(), 200),
        (other_a(), mint_a(), other(), 0),
        (other_b(), mint_b(), other(), 500),
    ];
    for (key, mint, owner, amount) in accounts {
        assert_eq!(ledger.create_token_account(key, mint, owner, amount), Ok(()));
    }
    ledger
}

fn offer_key(offer_id: u64) -> Address {
    offer_address(&id(), &seller(), offer_id).unwrap().0
}

fn vault_key(owner: &Address) -> Address {
    vault_address(&id(), owner).unwrap()
}

fn proposal_key(offer: &Address, proposal_id: u64) -> Address {
    proposal_address(&id(), offer, &buyer(), proposal_id).unwrap().0
}

fn create_ctx() -> InitializeOffer {
    InitializeOffer { seller_token_account: seller_a(), token_mint_a: mint_a(), seller: seller() }
}

/// The seller's offer of 100 of A for 50 of B under the given identifier.
fn open_offer(ledger: &mut Ledger, offer_id: u64, allow_alternatives: bool) -> Address {
    let made =
        initialize_offer(ledger, &create_ctx(), offer_id, 100, mint_b(), 50, allow_alternatives);
    assert_eq!(made, Ok(()));
    offer_key(offer_id)
}

fn submit_ctx(offer: Address) -> SubmitProposal {
    SubmitProposal {
        offer,
        buyer_token_account: buyer_c(),
        proposed_mint: mint_c(),
        buyer: buyer(),
    }
}

/// The buyer's proposal of 40 of C against the offer.
fn open_proposal(ledger: &mut Ledger, offer: Address, proposal_id: u64) -> Address {
    assert_eq!(submit_proposal(ledger, &submit_ctx(offer), proposal_id, 40), Ok(()));
    proposal_key(&offer, proposal_id)
}

fn accept_ctx(offer: Address, proposal: Address) -> AcceptProposal {
    AcceptProposal {
        offer,
        proposal,
        seller_receive_account: seller_c(),
        buyer_receive_account: buyer_a(),
        seller: seller(),
    }
}

fn swap_ctx(offer: Address) -> ExecuteSwap {
    ExecuteSwap {
        offer,
        buyer_token_account: buyer_b(),
        seller_token_account: seller_b(),
        buyer_receive_account: buyer_a(),
        buyer: buyer(),
    }
}

fn cancel_ctx(offer: Address) -> CancelOffer {
    CancelOffer { offer, seller_token_account: seller_a(), seller: seller() }
}

fn withdraw_ctx(proposal: Address) -> WithdrawProposal {
    WithdrawProposal { proposal, buyer_token_account: buyer_c(), buyer: buyer() }
}

fn supplies(ledger: &Ledger) -> [u64; 4] {
    [
        ledger.supply(&Asset::Native),
        ledger.supply(&Asset::Token(mint_a())),
        ledger.supply(&Asset::Token(mint_b())),
        ledger.supply(&Asset::Token(mint_c())),
    ]
}

#[test]
fn create_offer_escrows_the_amount() {
    let mut ledger = world();
    let before = supplies(&ledger);
    let offer = open_offer(&mut ledger, 1, true);
    let vault = vault_key(&offer);
    assert_eq!(ledger.balance(&vault), 100);
    assert_eq!(ledger.balance(&seller_a()), 900);
    assert_eq!(ledger.funds(&seller()), FUNDS - OFFER_DEPOSIT - VAULT_DEPOSIT);
    assert_eq!(ledger.funds(&offer), OFFER_DEPOSIT);
    assert_eq!(ledger.funds(&vault), VAULT_DEPOSIT);
    assert_eq!(
        ledger.vault(&vault),
        Some(TokenAccount { mint: mint_a(), owner: offer, amount: 100 })
    );
    assert_eq!(ledger.token_account(&vault), None);
    assert!(ledger.is_vault_of(&vault, &offer));
    assert!(!ledger.is_vault_of(&vault, &seller()));
    assert!(!ledger.is_vault_of(&seller_a(), &seller()));
    let bump = offer_address(&id(), &seller(), 1).unwrap().1;
    assert_eq!(
        ledger.offer(&offer),
        Some(Offer {
            offer_id: 1,
            seller: seller(),
            token_mint_a: mint_a(),
            token_amount_a: 100,
            token_mint_b: mint_b(),
            token_amount_b: 50,
            allow_alternatives: true,
            bump,
        })
    );
    assert_eq!(supplies(&ledger), before);
}

#[test]
fn create_offer_of_nothing_is_allowed() {
    let mut ledger = world();
    let made = initialize_offer(&mut ledger, &create_ctx(), 9, 0, mint_b(), 0, false);
    assert_eq!(made, Ok(()));
    assert_eq!(ledger.balance(&vault_key(&offer_key(9))), 0);
    assert_eq!(ledger.balance(&seller_a()), 1000);
}

#[test]
fn create_offer_twice_is_a_duplicate() {
    let mut ledger = world();
    open_offer(&mut ledger, 1, true);
    let again = initialize_offer(&mut ledger, &create_ctx(), 1, 5, mint_b(), 5, true);
    assert_eq!(again, Err(create::ErrorCode::OfferExists));
    assert_eq!(again.unwrap_err().kind(), ErrorKind::DuplicateRecord);
    assert_eq!(ledger.balance(&seller_a()), 900);
    assert_eq!(open_offer(&mut ledger, 2, true), offer_key(2));
    assert_eq!(ledger.balance(&seller_a()), 800);
}

#[test]
fn create_offer_failures() {
    let mut ledger = world();
    let mut ctx = create_ctx();
    ctx.seller = addr(99);
    let failed = initialize_offer(&mut ledger, &ctx, 1, 100, mint_b(), 50, true);
    assert_eq!(failed, Err(create::ErrorCode::SourceNotOwned));
    assert_eq!(failed.unwrap_err().kind(), ErrorKind::Unauthorized);
    let mut ctx = create_ctx();
    ctx.seller_token_account = addr(98);
    assert_eq!(
        initialize_offer(&mut ledger, &ctx, 1, 100, mint_b(), 50, true),
        Err(create::ErrorCode::SourceNotFound)
    );
    let mut ctx = create_ctx();
    ctx.seller_token_account = seller_b();
    assert_eq!(
        initialize_offer(&mut ledger, &ctx, 1, 100, mint_b(), 50, true),
        Err(create::ErrorCode::SourceMintMismatch)
    );
    let mut ctx = create_ctx();
    ctx.seller_token_account = buyer_a();
    assert_eq!(
        initialize_offer(&mut ledger, &ctx, 1, 100, mint_b(), 50, true),
        Err(create::ErrorCode::SourceNotOwned)
    );
    let short = initialize_offer(&mut ledger, &create_ctx(), 1, 1001, mint_b(), 50, true);
    assert_eq!(short, Err(create::ErrorCode::InsufficientFunds));
    assert_eq!(short.unwrap_err().kind(), ErrorKind::InsufficientBalance);
    assert_eq!(ledger.balance(&seller_a()), 1000);
    assert_eq!(ledger.funds(&seller()), FUNDS);
    assert_eq!(ledger.account(&offer_key(1)), None);
}

#[test]
fn create_offer_needs_the_deposits() {
    let mut ledger = Ledger::new(id());
    assert_eq!(ledger.create_wallet(seller(), OFFER_DEPOSIT + VAULT_DEPOSIT - 1), Ok(()));
    assert_eq!(ledger.create_token_account(seller_a(), mint_a(), seller(), 1000), Ok(()));
    let made = initialize_offer(&mut ledger, &create_ctx(), 1, 100, mint_b(), 50, true);
    assert_eq!(made, Err(create::ErrorCode::InsufficientDeposit));
    assert_eq!(made.unwrap_err().kind(), ErrorKind::InsufficientBalance);
    let mut ledger = Ledger::new(id());
    assert_eq!(ledger.create_wallet(seller(), OFFER_DEPOSIT + VAULT_DEPOSIT), Ok(()));
    assert_eq!(ledger.create_token_account(seller_a(), mint_a(), seller(), 1000), Ok(()));
    let made = initialize_offer(&mut ledger, &create_ctx(), 1, 100, mint_b(), 50, true);
    assert_eq!(made, Ok(()));
    assert_eq!(ledger.funds(&seller()), 0);
    let mut ledger = Ledger::new(id());
    assert_eq!(ledger.create_token_account(seller_a(), mint_a(), seller(), 1000), Ok(()));
    let made = initialize_offer(&mut ledger, &create_ctx(), 1, 100, mint_b(), 50, true);
    assert_eq!(made, Err(create::ErrorCode::InsufficientDeposit));
    assert_eq!(ledger.balance(&seller_a()), 1000);
}

#[test]
fn create_offer_refuses_a_vault_address_in_use() {
    let mut ledger = world();
    let vault = vault_key(&offer_key(1));
    assert_eq!(ledger.create_token_account(vault, mint_a(), other(), 0), Ok(()));
    let made = initialize_offer(&mut ledger, &create_ctx(), 1, 100, mint_b(), 50, true);
    assert_eq!(made, Err(create::ErrorCode::VaultExists));
    assert_eq!(made.unwrap_err().kind(), ErrorKind::DuplicateRecord);
    assert_eq!(ledger.account(&offer_key(1)), None);
}

#[test]
fn accept_settles_both_sides_and_closes_the_offer() {
    let mut ledger = world();
    let before = supplies(&ledger);
    let offer = open_offer(&mut ledger, 1, true);
    let proposal = open_proposal(&mut ledger, offer, 1);
    assert_eq!(ledger.balance(&vault_key(&proposal)), 40);
    assert_eq!(ledger.balance(&buyer_c()), 160);
    assert_eq!(accept_proposal(&mut ledger, &accept_ctx(offer, proposal)), Ok(()));
    assert_eq!(ledger.balance(&seller_c()), 40);
    assert_eq!(ledger.balance(&buyer_a()), 100);
    assert_eq!(ledger.balance(&seller_a()), 900);
    assert_eq!(ledger.balance(&buyer_c()), 160);
    assert_eq!(ledger.account(&offer), None);
    assert_eq!(ledger.account(&proposal), None);
    assert_eq!(ledger.account(&vault_key(&offer)), None);
    assert_eq!(ledger.account(&vault_key(&proposal)), None);
    assert_eq!(ledger.funds(&seller()), FUNDS);
    assert_eq!(ledger.funds(&buyer()), FUNDS);
    assert_eq!(supplies(&ledger), before);
    let mut late = swap_ctx(offer);
    late.buyer = other();
    late.buyer_token_account = other_b();
    late.buyer_receive_account = other_a();
    let failed = execute_swap(&mut ledger, &late);
    assert_eq!(failed, Err(swap::ErrorCode::OfferNotFound));
    assert_eq!(failed.unwrap_err().kind(), ErrorKind::PreconditionFailed);
    assert_eq!(ledger.balance(&other_b()), 500);
    assert_eq!(ledger.balance(&other_a()), 0);
    assert_eq!(ledger.balance(&seller_b()), 0);
}

#[test]
fn submit_fails_where_alternatives_are_not_allowed() {
    let mut ledger = world();
    let offer = open_offer(&mut ledger, 2, false);
    let funds = ledger.funds(&buyer());
    let failed = submit_proposal(&mut ledger, &submit_ctx(offer), 1, 40);
    assert_eq!(failed, Err(submit::ErrorCode::AlternativesNotAllowed));
    assert_eq!(failed.unwrap_err().kind(), ErrorKind::PreconditionFailed);
    assert_eq!(ledger.balance(&buyer_c()), 200);
    assert_eq!(ledger.funds(&buyer()), funds);
    assert_eq!(ledger.account(&proposal_key(&offer, 1)), None);
    assert_eq!(ledger.account(&vault_key(&proposal_key(&offer, 1))), None);
}

#[test]
fn submit_escrows_the_bid() {
    let mut ledger = world();
    let offer = open_offer(&mut ledger, 1, true);
    let before = supplies(&ledger);
    let proposal = open_proposal(&mut ledger, offer, 7);
    let bump = proposal_address(&id(), &offer, &buyer(), 7).unwrap().1;
    assert_eq!(
        ledger.proposal(&proposal),
        Some(Proposal {
            proposal_id: 7,
            buyer: buyer(),
            offer,
            proposed_mint: mint_c(),
            proposed_amount: 40,
            bump,
        })
    );
    assert_eq!(
        ledger.vault(&vault_key(&proposal)),
        Some(TokenAccount { mint: mint_c(), owner: proposal, amount: 40 })
    );
    assert!(ledger.is_vault_of(&vault_key(&proposal), &proposal));
    assert!(!ledger.is_vault_of(&vault_key(&proposal), &offer));
    assert_eq!(ledger.balance(&buyer_c()), 160);
    assert_eq!(ledger.funds(&buyer()), FUNDS - PROPOSAL_DEPOSIT - VAULT_DEPOSIT);
    assert_eq!(ledger.funds(&proposal), PROPOSAL_DEPOSIT);
    assert_eq!(supplies(&ledger), before);
}

#[test]
fn submit_failures() {
    let mut ledger = world();
    let offer = open_offer(&mut ledger, 1, true);
    assert_eq!(
        submit_proposal(&mut ledger, &submit_ctx(addr(77)), 1, 40),
        Err(submit::ErrorCode::OfferNotFound)
    );
    let mut ctx = submit_ctx(offer);
    ctx.buyer = addr(99);
    assert_eq!(submit_proposal(&mut ledger, &ctx, 1, 40), Err(submit::ErrorCode::SourceNotOwned));
    let mut ctx = submit_ctx(offer);
    ctx.buyer_token_account = addr(98);
    assert_eq!(submit_proposal(&mut ledger, &ctx, 1, 40), Err(submit::ErrorCode::SourceNotFound));
    let mut ctx = submit_ctx(offer);
    ctx.proposed_mint = mint_b();
    assert_eq!(
        submit_proposal(&mut ledger, &ctx, 1, 40),
        Err(submit::ErrorCode::SourceMintMismatch)
    );
    let mut ctx = submit_ctx(offer);
    ctx.buyer_token_account = seller_c();
    assert_eq!(submit_proposal(&mut ledger, &ctx, 1, 40), Err(submit::ErrorCode::SourceNotOwned));
    assert_eq!(
        submit_proposal(&mut ledger, &submit_ctx(offer), 1, 201),
        Err(submit::ErrorCode::InsufficientFunds)
    );
    let vault = vault_key(&proposal_key(&offer, 3));
    assert_eq!(ledger.create_token_account(vault, mint_c(), other(), 0), Ok(()));
    assert_eq!(
        submit_proposal(&mut ledger, &submit_ctx(offer), 3, 40),
        Err(submit::ErrorCode::VaultExists)
    );
    open_proposal(&mut ledger, offer, 1);
    let again = submit_proposal(&mut ledger, &submit_ctx(offer), 1, 40);
    assert_eq!(again, Err(submit::ErrorCode::ProposalExists));
    assert_eq!(again.unwrap_err().kind(), ErrorKind::DuplicateRecord);
    assert_eq!(ledger.balance(&buyer_c()), 160);
}

#[test]
fn submit_needs_the_deposits() {
    let mut ledger = Ledger::new(id());
    assert_eq!(ledger.create_wallet(seller(), FUNDS), Ok(()));
    assert_eq!(ledger.create_wallet(buyer(), PROPOSAL_DEPOSIT + VAULT_DEPOSIT - 1), Ok(()));
    assert_eq!(ledger.create_token_account(seller_a(), mint_a(), seller(), 1000), Ok(()));
    assert_eq!(ledger.create_token_account(buyer_c(), mint_c(), buyer(), 200), Ok(()));
    let offer = open_offer(&mut ledger, 1, true);
    let failed = submit_proposal(&mut ledger, &submit_ctx(offer), 1, 40);
    assert_eq!(failed, Err(submit::ErrorCode::InsufficientDeposit));
    assert_eq!(failed.unwrap_err().kind(), ErrorKind::InsufficientBalance);
    assert_eq!(ledger.balance(&buyer_c()), 200);
}

#[test]
fn swap_exchanges_exactly_the_stated_amounts() {
    let mut ledger = world();
    let before = supplies(&ledger);
    let offer = open_offer(&mut ledger, 1, false);
    assert_eq!(execute_swap(&mut ledger, &swap_ctx(offer)), Ok(()));
    assert_eq!(ledger.balance(&seller_b()), 50);
    assert_eq!(ledger.balance(&buyer_a()), 100);
    assert_eq!(ledger.balance(&buyer_b()), 450);
    assert_eq!(ledger.balance(&seller_a()), 900);
    assert_eq!(ledger.account(&offer), None);
    assert_eq!(ledger.account(&vault_key(&offer)), None);
    assert_eq!(ledger.funds(&seller()), FUNDS);
    assert_eq!(ledger.funds(&buyer()), FUNDS);
    assert_eq!(supplies(&ledger), before);
}

#[test]
fn swap_fails_on_another_asset_than_stated() {
    let mut ledger = world();
    let offer = open_offer(&mut ledger, 1, false);
    let mut ctx = swap_ctx(offer);
    ctx.buyer_token_account = buyer_c();
    let failed = execute_swap(&mut ledger, &ctx);
    assert_eq!(failed, Err(swap::ErrorCode::InvalidTokenMint));
    assert_eq!(failed.unwrap_err().kind(), ErrorKind::PreconditionFailed);
    assert_eq!(ledger.balance(&buyer_c()), 200);
    assert_eq!(ledger.balance(&buyer_a()), 0);
    assert_eq!(ledger.balance(&seller_b()), 0);
    assert_eq!(ledger.balance(&vault_key(&offer)), 100);
    assert!(ledger.offer(&offer).is_some());
}

#[test]
fn swap_failures() {
    let mut ledger = world();
    let offer = open_offer(&mut ledger, 1, false);
    let mut ctx = swap_ctx(offer);
    ctx.buyer_token_account = addr(98);
    assert_eq!(execute_swap(&mut ledger, &ctx), Err(swap::ErrorCode::PaymentNotFound));
    let mut ctx = swap_ctx(offer);
    ctx.buyer_token_account = other_b();
    let failed = execute_swap(&mut ledger, &ctx);
    assert_eq!(failed, Err(swap::ErrorCode::PaymentNotOwned));
    assert_eq!(failed.unwrap_err().kind(), ErrorKind::Unauthorized);
    let mut ctx = swap_ctx(offer);
    ctx.seller_token_account = addr(97);
    assert_eq!(execute_swap(&mut ledger, &ctx), Err(swap::ErrorCode::SellerAccountNotFound));
    let mut ctx = swap_ctx(offer);
    ctx.seller_token_account = seller_c();
    assert_eq!(execute_swap(&mut ledger, &ctx), Err(swap::ErrorCode::SellerAccountMintMismatch));
    let mut ctx = swap_ctx(offer);
    ctx.seller_token_account = other_b();
    assert_eq!(execute_swap(&mut ledger, &ctx), Err(swap::ErrorCode::SellerAccountNotOwned));
    let mut ctx = swap_ctx(offer);
    ctx.buyer_receive_account = addr(96);
    assert_eq!(execute_swap(&mut ledger, &ctx), Err(swap::ErrorCode::ReceiverNotFound));
    let mut ctx = swap_ctx(offer);
    ctx.buyer_receive_account = buyer_c();
    assert_eq!(execute_swap(&mut ledger, &ctx), Err(swap::ErrorCode::ReceiverMintMismatch));
    let mut ctx = swap_ctx(offer);
    ctx.buyer_receive_account = vault_key(&offer);
    assert_eq!(execute_swap(&mut ledger, &ctx), Err(swap::ErrorCode::ReceiverInCustody));
    assert_eq!(ledger.balance(&buyer_b()), 500);
    assert_eq!(ledger.balance(&vault_key(&offer)), 100);
}

#[test]
fn swap_needs_the_price() {
    let mut ledger = world();
    let made = initialize_offer(&mut ledger, &create_ctx(), 1, 100, mint_b(), 501, false);
    assert_eq!(made, Ok(()));
    let offer = offer_key(1);
    let failed = execute_swap(&mut ledger, &swap_ctx(offer));
    assert_eq!(failed, Err(swap::ErrorCode::InsufficientFunds));
    assert_eq!(failed.unwrap_err().kind(), ErrorKind::InsufficientBalance);
    assert_eq!(ledger.balance(&buyer_b()), 500);
    assert_eq!(ledger.balance(&vault_key(&offer)), 100);
}

#[test]
fn swap_cannot_pay_out_of_a_vault() {
    let mut ledger = world();
    let first = open_offer(&mut ledger, 1, false);
    let made = initialize_offer(&mut ledger, &create_ctx(), 2, 100, mint_a(), 10, false);
    assert_eq!(made, Ok(()));
    let mut ctx = swap_ctx(offer_key(2));
    ctx.buyer = first;
    ctx.buyer_token_account = vault_key(&first);
    ctx.seller_token_account = seller_a();
    assert_eq!(execute_swap(&mut ledger, &ctx), Err(swap::ErrorCode::PaymentNotFound));
    assert_eq!(ledger.balance(&vault_key(&first)), 100);
}

#[test]
fn swap_by_the_seller_through_one_account() {
    let mut ledger = world();
    let made = initialize_offer(&mut ledger, &create_ctx(), 1, 100, mint_a(), 30, false);
    assert_eq!(made, Ok(()));
    let ctx = ExecuteSwap {
        offer: offer_key(1),
        buyer_token_account: seller_a(),
        seller_token_account: seller_a(),
        buyer_receive_account: seller_a(),
        buyer: seller(),
    };
    assert_eq!(execute_swap(&mut ledger, &ctx), Ok(()));
    assert_eq!(ledger.balance(&seller_a()), 1000);
    assert_eq!(ledger.funds(&seller()), FUNDS);
}

#[test]
fn operations_on_given_addresses() {
    let mut ledger = world();
    let offer = addr(60);
    let vault = addr(61);
    let proposal = addr(62);
    let bid = addr(63);
    let made = create::apply(
        &mut ledger,
        &create_ctx(),
        1,
        100,
        mint_b(),
        50,
        true,
        Some((offer, 250)),
        Some(vault),
    );
    assert_eq!(made, Ok(()));
    assert_eq!(ledger.offer(&offer).unwrap().bump, 250);
    assert_eq!(ledger.balance(&vault), 100);
    assert!(ledger.is_vault_of(&vault, &offer));
    let made = submit::apply(
        &mut ledger,
        &submit_ctx(offer),
        1,
        40,
        Some((proposal, 249)),
        Some(bid),
    );
    assert_eq!(made, Ok(()));
    assert_eq!(ledger.proposal(&proposal).unwrap().bump, 249);
    assert_eq!(ledger.balance(&bid), 40);

    assert_eq!(
        cancel::apply(&mut ledger, &cancel_ctx(offer), None),
        Err(cancel::ErrorCode::AddressNotDerivable)
    );
    assert_eq!(
        cancel::apply(&mut ledger, &cancel_ctx(offer), Some(bid)),
        Err(cancel::ErrorCode::VaultMismatch)
    );
    assert_eq!(
        cancel::apply(&mut ledger, &cancel_ctx(offer), Some(seller_a())),
        Err(cancel::ErrorCode::VaultMismatch)
    );
    assert_eq!(
        swap::apply(&mut ledger, &swap_ctx(offer), None),
        Err(swap::ErrorCode::AddressNotDerivable)
    );
    assert_eq!(
        swap::apply(&mut ledger, &swap_ctx(offer), Some(bid)),
        Err(swap::ErrorCode::VaultMismatch)
    );
    assert_eq!(
        withdraw::apply(&mut ledger, &withdraw_ctx(proposal), None),
        Err(withdraw::ErrorCode::AddressNotDerivable)
    );
    assert_eq!(
        withdraw::apply(&mut ledger, &withdraw_ctx(proposal), Some(vault)),
        Err(withdraw::ErrorCode::VaultMismatch)
    );
    let ctx = accept_ctx(offer, proposal);
    assert_eq!(
        accept::apply(&mut ledger, &ctx, Some(vault), None),
        Err(accept::ErrorCode::AddressNotDerivable)
    );
    assert_eq!(
        accept::apply(&mut ledger, &ctx, None, Some(bid)),
        Err(accept::ErrorCode::AddressNotDerivable)
    );
    assert_eq!(
        accept::apply(&mut ledger, &ctx, Some(bid), Some(vault)),
        Err(accept::ErrorCode::VaultMismatch)
    );
    assert_eq!(
        accept::apply(&mut ledger, &ctx, Some(vault), Some(vault)),
        Err(accept::ErrorCode::VaultMismatch)
    );
    assert_eq!(ledger.balance(&vault), 100);
    assert_eq!(ledger.balance(&bid), 40);

    // The handlers look for the vaults at the derived addresses, where these
    // records do not have them.
    let misled = cancel_offer(&mut ledger, &cancel_ctx(offer));
    assert_eq!(misled, Err(cancel::ErrorCode::VaultMismatch));

    assert_eq!(accept::apply(&mut ledger, &ctx, Some(vault), Some(bid)), Ok(()));
    assert_eq!(ledger.balance(&seller_c()), 40);
    assert_eq!(ledger.balance(&buyer_a()), 100);
    assert_eq!(ledger.account(&offer), None);
    assert_eq!(ledger.account(&vault), None);
    assert_eq!(ledger.account(&proposal), None);
    assert_eq!(ledger.account(&bid), None);
    assert_eq!(ledger.funds(&seller()), FUNDS);
    assert_eq!(ledger.funds(&buyer()), FUNDS);
}

#[test]
fn creation_needs_both_addresses() {
    let mut ledger = world();
    let at = Some((addr(60), 255));
    assert_eq!(
        create::apply(&mut ledger, &create_ctx(), 1, 100, mint_b(), 50, true, None, Some(addr(61))),
        Err(create::ErrorCode::AddressNotDerivable)
    );
    assert_eq!(
        create::apply(&mut ledger, &create_ctx(), 1, 100, mint_b(), 50, true, at, None),
        Err(create::ErrorCode::AddressNotDerivable)
    );
    assert_eq!(
        create::apply(&mut ledger, &create_ctx(), 1, 100, mint_b(), 50, true, at, Some(addr(60))),
        Err(create::ErrorCode::VaultExists)
    );
    assert_eq!(
        create::apply(&mut ledger, &create_ctx(), 1, 100, mint_b(), 50, true, at, Some(seller())),
        Err(create::ErrorCode::VaultExists)
    );
    let taken = Some((seller_b(), 255));
    let free = Some(addr(61));
    assert_eq!(
        create::apply(&mut ledger, &create_ctx(), 1, 100, mint_b(), 50, true, taken, free),
        Err(create::ErrorCode::OfferExists)
    );
    let offer = open_offer(&mut ledger, 1, true);
    let ctx = submit_ctx(offer);
    assert_eq!(
        submit::apply(&mut ledger, &ctx, 1, 40, None, Some(addr(61))),
        Err(submit::ErrorCode::AddressNotDerivable)
    );
    assert_eq!(
        submit::apply(&mut ledger, &ctx, 1, 40, at, None),
        Err(submit::ErrorCode::AddressNotDerivable)
    );
    assert_eq!(
        submit::apply(&mut ledger, &ctx, 1, 40, at, Some(addr(60))),
        Err(submit::ErrorCode::VaultExists)
    );
    assert_eq!(
        submit::apply(&mut ledger, &ctx, 1, 40, Some((offer, 255)), Some(addr(61))),
        Err(submit::ErrorCode::ProposalExists)
    );
    assert_eq!(ledger.balance(&seller_a()), 900);
    assert_eq!(ledger.balance(&buyer_c()), 200);
}

#[test]
fn cancel_returns_the_asset_and_the_deposits() {
    let mut ledger = world();
    let before = supplies(&ledger);
    let offer = open_offer(&mut ledger, 1, true);
    assert_eq!(cancel_offer(&mut ledger, &cancel_ctx(offer)), Ok(()));
    assert_eq!(ledger.balance(&seller_a()), 1000);
    assert_eq!(ledger.funds(&seller()), FUNDS);
    assert_eq!(ledger.account(&offer), None);
    assert_eq!(ledger.account(&vault_key(&offer)), None);
    assert_eq!(supplies(&ledger), before);
}

#[test]
fn cancel_failures() {
    let mut ledger = world();
    let offer = open_offer(&mut ledger, 1, true);
    let mut ctx = cancel_ctx(offer);
    ctx.seller_token_account = addr(98);
    assert_eq!(cancel_offer(&mut ledger, &ctx), Err(cancel::ErrorCode::ReceiverNotFound));
    let mut ctx = cancel_ctx(offer);
    ctx.seller_token_account = seller_b();
    assert_eq!(cancel_offer(&mut ledger, &ctx), Err(cancel::ErrorCode::ReceiverMintMismatch));
    let mut ctx = cancel_ctx(offer);
    ctx.seller_token_account = vault_key(&offer);
    let failed = cancel_offer(&mut ledger, &ctx);
    assert_eq!(failed, Err(cancel::ErrorCode::ReceiverInCustody));
    assert_eq!(failed.unwrap_err().kind(), ErrorKind::PreconditionFailed);
    assert_eq!(ledger.balance(&vault_key(&offer)), 100);
}

#[test]
fn cancel_cannot_pay_into_the_vault_of_another_offer() {
    let mut ledger = world();
    let first = open_offer(&mut ledger, 1, true);
    let second = open_offer(&mut ledger, 2, true);
    let mut ctx = cancel_ctx(first);
    ctx.seller_token_account = vault_key(&second);
    assert_eq!(cancel_offer(&mut ledger, &ctx), Err(cancel::ErrorCode::ReceiverInCustody));
    assert_eq!(ledger.balance(&vault_key(&second)), 100);
    assert_eq!(cancel_offer(&mut ledger, &cancel_ctx(second)), Ok(()));
    assert_eq!(cancel_offer(&mut ledger, &cancel_ctx(first)), Ok(()));
    assert_eq!(ledger.balance(&seller_a()), 1000);
}

#[test]
fn closing_an_offer_twice_fails_without_effect() {
    let mut ledger = world();
    let offer = open_offer(&mut ledger, 1, true);
    assert_eq!(cancel_offer(&mut ledger, &cancel_ctx(offer)), Ok(()));
    let again = cancel_offer(&mut ledger, &cancel_ctx(offer));
    assert_eq!(again, Err(cancel::ErrorCode::OfferNotFound));
    assert_eq!(again.unwrap_err().kind(), ErrorKind::PreconditionFailed);
    assert_eq!(ledger.balance(&seller_a()), 1000);

    let offer = open_offer(&mut ledger, 2, true);
    assert_eq!(execute_swap(&mut ledger, &swap_ctx(offer)), Ok(()));
    let again = execute_swap(&mut ledger, &swap_ctx(offer));
    assert_eq!(again, Err(swap::ErrorCode::OfferNotFound));
    assert_eq!(again.unwrap_err().kind(), ErrorKind::PreconditionFailed);
    assert_eq!(ledger.balance(&buyer_b()), 450);
    assert_eq!(ledger.balance(&buyer_a()), 100);
    assert_eq!(ledger.balance(&seller_b()), 50);

    let offer = open_offer(&mut ledger, 3, true);
    let proposal = open_proposal(&mut ledger, offer, 1);
    let spare = open_proposal(&mut ledger, offer, 2);
    assert_eq!(accept_proposal(&mut ledger, &accept_ctx(offer, proposal)), Ok(()));
    let again = accept_proposal(&mut ledger, &accept_ctx(offer, proposal));
    assert_eq!(again, Err(accept::ErrorCode::OfferNotFound));
    assert_eq!(again.unwrap_err().kind(), ErrorKind::PreconditionFailed);
    let orphan = accept_proposal(&mut ledger, &accept_ctx(offer, spare));
    assert_eq!(orphan, Err(accept::ErrorCode::OfferNotFound));
    assert_eq!(ledger.balance(&seller_c()), 40);
    assert_eq!(ledger.balance(&buyer_a()), 200);
    assert_eq!(ledger.balance(&vault_key(&spare)), 40);
}

#[test]
fn only_the_seller_cancels_and_accepts() {
    let mut ledger = world();
    let offer = open_offer(&mut ledger, 1, true);
    let proposal = open_proposal(&mut ledger, offer, 1);
    let state = supplies(&ledger);
    for caller in [buyer(), other(), addr(99), offer, vault_key(&offer)] {
        let mut ctx = cancel_ctx(offer);
        ctx.seller = caller;
        let failed = cancel_offer(&mut ledger, &ctx);
        assert_eq!(failed, Err(cancel::ErrorCode::UnauthorizedSeller));
        assert_eq!(failed.unwrap_err().kind(), ErrorKind::Unauthorized);
        let mut ctx = accept_ctx(offer, proposal);
        ctx.seller = caller;
        let failed = accept_proposal(&mut ledger, &ctx);
        assert_eq!(failed, Err(accept::ErrorCode::UnauthorizedSeller));
        assert_eq!(failed.unwrap_err().kind(), ErrorKind::Unauthorized);
    }
    assert_eq!(supplies(&ledger), state);
    assert_eq!(ledger.balance(&vault_key(&offer)), 100);
    assert_eq!(ledger.balance(&vault_key(&proposal)), 40);
    assert_eq!(ledger.balance(&seller_a()), 900);
    assert!(ledger.offer(&offer).is_some());
    assert!(ledger.proposal(&proposal).is_some());
}

#[test]
fn only_the_buyer_withdraws() {
    let mut ledger = world();
    let offer = open_offer(&mut ledger, 1, true);
    let proposal = open_proposal(&mut ledger, offer, 1);
    for caller in [seller(), other(), addr(99)] {
        let mut ctx = withdraw_ctx(proposal);
        ctx.buyer = caller;
        let failed = withdraw_proposal(&mut ledger, &ctx);
        assert_eq!(failed, Err(withdraw::ErrorCode::UnauthorizedBuyer));
        assert_eq!(failed.unwrap_err().kind(), ErrorKind::Unauthorized);
    }
    assert_eq!(ledger.balance(&vault_key(&proposal)), 40);
    assert_eq!(ledger.balance(&buyer_c()), 160);
}

#[test]
fn withdraw_returns_the_bid_and_the_deposits() {
    let mut ledger = world();
    let before = supplies(&ledger);
    let offer = open_offer(&mut ledger, 1, true);
    let proposal = open_proposal(&mut ledger, offer, 1);
    assert_eq!(withdraw_proposal(&mut ledger, &withdraw_ctx(proposal)), Ok(()));
    assert_eq!(ledger.balance(&buyer_c()), 200);
    assert_eq!(ledger.funds(&buyer()), FUNDS);
    assert_eq!(ledger.account(&proposal), None);
    assert_eq!(ledger.account(&vault_key(&proposal)), None);
    assert_eq!(ledger.balance(&vault_key(&offer)), 100);
    assert_eq!(supplies(&ledger), before);
    let again = withdraw_proposal(&mut ledger, &withdraw_ctx(proposal));
    assert_eq!(again, Err(withdraw::ErrorCode::ProposalNotFound));
    assert_eq!(again.unwrap_err().kind(), ErrorKind::PreconditionFailed);
}

#[test]
fn withdraw_failures() {
    let mut ledger = world();
    let offer = open_offer(&mut ledger, 1, true);
    let proposal = open_proposal(&mut ledger, offer, 1);
    let mut ctx = withdraw_ctx(proposal);
    ctx.buyer_token_account = addr(98);
    assert_eq!(withdraw_proposal(&mut ledger, &ctx), Err(withdraw::ErrorCode::ReceiverNotFound));
    let mut ctx = withdraw_ctx(proposal);
    ctx.buyer_token_account = buyer_b();
    assert_eq!(
        withdraw_proposal(&mut ledger, &ctx),
        Err(withdraw::ErrorCode::ReceiverMintMismatch)
    );
    let mut ctx = withdraw_ctx(proposal);
    ctx.buyer_token_account = vault_key(&proposal);
    assert_eq!(withdraw_proposal(&mut ledger, &ctx), Err(withdraw::ErrorCode::ReceiverInCustody));
    assert_eq!(ledger.balance(&vault_key(&proposal)), 40);
}

#[test]
fn a_proposal_outlives_its_offer_for_withdrawal_only() {
    let mut ledger = world();
    let offer = open_offer(&mut ledger, 1, true);
    let proposal = open_proposal(&mut ledger, offer, 1);
    assert_eq!(cancel_offer(&mut ledger, &cancel_ctx(offer)), Ok(()));
    assert!(ledger.proposal(&proposal).is_some());
    assert_eq!(
        accept_proposal(&mut ledger, &accept_ctx(offer, proposal)),
        Err(accept::ErrorCode::OfferNotFound)
    );
    assert_eq!(withdraw_proposal(&mut ledger, &withdraw_ctx(proposal)), Ok(()));
    assert_eq!(ledger.balance(&buyer_c()), 200);

    let offer = open_offer(&mut ledger, 2, true);
    let proposal = open_proposal(&mut ledger, offer, 1);
    assert_eq!(execute_swap(&mut ledger, &swap_ctx(offer)), Ok(()));
    assert_eq!(withdraw_proposal(&mut ledger, &withdraw_ctx(proposal)), Ok(()));
    assert_eq!(ledger.balance(&buyer_c()), 200);
    assert_eq!(ledger.funds(&buyer()), FUNDS);
}

#[test]
fn a_reopened_offer_is_the_target_of_old_proposals() {
    let mut ledger = world();
    let offer = open_offer(&mut ledger, 1, true);
    let proposal = open_proposal(&mut ledger, offer, 1);
    assert_eq!(cancel_offer(&mut ledger, &cancel_ctx(offer)), Ok(()));
    assert_eq!(
        accept_proposal(&mut ledger, &accept_ctx(offer, proposal)),
        Err(accept::ErrorCode::OfferNotFound)
    );
    let made = initialize_offer(&mut ledger, &create_ctx(), 1, 7, mint_b(), 50, false);
    assert_eq!(made, Ok(()));
    assert_eq!(offer_key(1), offer);
    assert_eq!(accept_proposal(&mut ledger, &accept_ctx(offer, proposal)), Ok(()));
    assert_eq!(ledger.balance(&seller_c()), 40);
    assert_eq!(ledger.balance(&buyer_a()), 7);
    assert_eq!(ledger.balance(&seller_a()), 993);
}

#[test]
fn accept_failures() {
    let mut ledger = world();
    let offer = open_offer(&mut ledger, 1, true);
    let rival = open_offer(&mut ledger, 2, true);
    let proposal = open_proposal(&mut ledger, offer, 1);
    assert_eq!(
        accept_proposal(&mut ledger, &accept_ctx(addr(77), proposal)),
        Err(accept::ErrorCode::OfferNotFound)
    );
    assert_eq!(
        accept_proposal(&mut ledger, &accept_ctx(offer, addr(78))),
        Err(accept::ErrorCode::ProposalNotFound)
    );
    assert_eq!(
        accept_proposal(&mut ledger, &accept_ctx(rival, proposal)),
        Err(accept::ErrorCode::ProposalMismatch)
    );
    let mut ctx = accept_ctx(offer, proposal);
    ctx.seller_receive_account = addr(98);
    assert_eq!(accept_proposal(&mut ledger, &ctx), Err(accept::ErrorCode::SellerReceiverNotFound));
    let mut ctx = accept_ctx(offer, proposal);
    ctx.seller_receive_account = seller_b();
    assert_eq!(
        accept_proposal(&mut ledger, &ctx),
        Err(accept::ErrorCode::SellerReceiverMintMismatch)
    );
    let mut ctx = accept_ctx(offer, proposal);
    ctx.seller_receive_account = vault_key(&proposal);
    assert_eq!(accept_proposal(&mut ledger, &ctx), Err(accept::ErrorCode::SellerReceiverInCustody));
    let mut ctx = accept_ctx(offer, proposal);
    ctx.buyer_receive_account = addr(97);
    assert_eq!(accept_proposal(&mut ledger, &ctx), Err(accept::ErrorCode::BuyerReceiverNotFound));
    let mut ctx = accept_ctx(offer, proposal);
    ctx.buyer_receive_account = buyer_b();
    assert_eq!(
        accept_proposal(&mut ledger, &ctx),
        Err(accept::ErrorCode::BuyerReceiverMintMismatch)
    );
    let mut ctx = accept_ctx(offer, proposal);
    ctx.buyer_receive_account = seller_a();
    let failed = accept_proposal(&mut ledger, &ctx);
    assert_eq!(failed, Err(accept::ErrorCode::BuyerReceiverNotOwned));
    assert_eq!(failed.unwrap_err().kind(), ErrorKind::PreconditionFailed);
    assert_eq!(ledger.balance(&vault_key(&offer)), 100);
    assert_eq!(ledger.balance(&vault_key(&proposal)), 40);
}

#[test]
fn accept_of_a_bid_in_the_offered_asset_into_one_account() {
    let mut ledger = world();
    let offer = open_offer(&mut ledger, 1, true);
    assert_eq!(ledger.create_token_account(addr(33), mint_a(), buyer(), 30), Ok(()));
    let ctx = SubmitProposal {
        offer,
        buyer_token_account: addr(33),
        proposed_mint: mint_a(),
        buyer: buyer(),
    };
    assert_eq!(submit_proposal(&mut ledger, &ctx, 1, 30), Ok(()));
    let proposal = proposal_key(&offer, 1);
    let mut both = accept_ctx(offer, proposal);
    both.seller_receive_account = buyer_a();
    assert_eq!(accept_proposal(&mut ledger, &both), Ok(()));
    assert_eq!(ledger.balance(&buyer_a()), 130);
}

#[test]
fn error_kinds() {
    assert_eq!(create::ErrorCode::SourceNotOwned.kind(), ErrorKind::Unauthorized);
    assert_eq!(create::ErrorCode::AddressNotDerivable.kind(), ErrorKind::PreconditionFailed);
    assert_eq!(create::ErrorCode::SourceNotFound.kind(), ErrorKind::PreconditionFailed);
    assert_eq!(create::ErrorCode::SourceMintMismatch.kind(), ErrorKind::PreconditionFailed);
    assert_eq!(create::ErrorCode::OfferExists.kind(), ErrorKind::DuplicateRecord);
    assert_eq!(create::ErrorCode::VaultExists.kind(), ErrorKind::DuplicateRecord);
    assert_eq!(create::ErrorCode::InsufficientFunds.kind(), ErrorKind::InsufficientBalance);
    assert_eq!(create::ErrorCode::InsufficientDeposit.kind(), ErrorKind::InsufficientBalance);
    assert_eq!(submit::ErrorCode::AlternativesNotAllowed.kind(), ErrorKind::PreconditionFailed);
    assert_eq!(submit::ErrorCode::AddressNotDerivable.kind(), ErrorKind::PreconditionFailed);
    assert_eq!(submit::ErrorCode::OfferNotFound.kind(), ErrorKind::PreconditionFailed);
    assert_eq!(submit::ErrorCode::SourceNotOwned.kind(), ErrorKind::Unauthorized);
    assert_eq!(submit::ErrorCode::ProposalExists.kind(), ErrorKind::DuplicateRecord);
    assert_eq!(submit::ErrorCode::VaultExists.kind(), ErrorKind::DuplicateRecord);
    assert_eq!(submit::ErrorCode::InsufficientFunds.kind(), ErrorKind::InsufficientBalance);
    assert_eq!(submit::ErrorCode::InsufficientDeposit.kind(), ErrorKind::InsufficientBalance);
    assert_eq!(swap::ErrorCode::InvalidTokenMint.kind(), ErrorKind::PreconditionFailed);
    assert_eq!(swap::ErrorCode::PaymentNotOwned.kind(), ErrorKind::Unauthorized);
    assert_eq!(swap::ErrorCode::InsufficientFunds.kind(), ErrorKind::InsufficientBalance);
    assert_eq!(swap::ErrorCode::VaultMismatch.kind(), ErrorKind::PreconditionFailed);
    assert_eq!(swap::ErrorCode::ReceiverInCustody.kind(), ErrorKind::PreconditionFailed);
    assert_eq!(accept::ErrorCode::UnauthorizedSeller.kind(), ErrorKind::Unauthorized);
    assert_eq!(accept::ErrorCode::ProposalMismatch.kind(), ErrorKind::PreconditionFailed);
    assert_eq!(accept::ErrorCode::VaultMismatch.kind(), ErrorKind::PreconditionFailed);
    assert_eq!(withdraw::ErrorCode::UnauthorizedBuyer.kind(), ErrorKind::Unauthorized);
    assert_eq!(withdraw::ErrorCode::ReceiverNotFound.kind(), ErrorKind::PreconditionFailed);
    assert_eq!(cancel::ErrorCode::UnauthorizedSeller.kind(), ErrorKind::Unauthorized);
    assert_eq!(cancel::ErrorCode::ReceiverMintMismatch.kind(), ErrorKind::PreconditionFailed);
    assert_eq!(cancel::ErrorCode::AddressNotDerivable.kind(), ErrorKind::PreconditionFailed);
}

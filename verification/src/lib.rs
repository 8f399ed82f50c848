//! An escrow-based asset-swap protocol over an in-memory ledger.
//!
//! A seller deposits an asset into a vault tied to an offer. A buyer either
//! pays the stated price and takes the asset in one atomic step, or locks a
//! competing bid in a vault of its own for the seller to accept. Every party
//! can unwind its own deposit until settlement.
//!
//! - `address`, `constants`, `error`: the plain values of the protocol.
//! - `state`: the offer and proposal records.
//! - `pda`: the addresses that records and vaults are derived to.
//! - `ledger`: the accounts, their totals, and the protocol's invariant:
//!   every open record has one vault, every vault belongs to one open
//!   record, and the vault holds exactly what the record has in escrow.
//! - `instructions`: the six operations, each with the conditions on which it
//!   fails and the state that it leaves behind.
//! - `fair_swap`: the operations as callers see them.
//! - `laws`: what holds across operations.

pub mod address;
pub mod constants;
pub mod error;
pub mod fair_swap;
pub mod instructions;
pub mod laws;
pub mod ledger;
pub mod pda;
pub mod state;

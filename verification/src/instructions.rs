//! The operations of the protocol, one module each.
//!
//! Each module states when its operation fails and what it leaves behind as
//! functions of the ledger's state, and offers the operation twice: `handler`
//! derives the addresses that the operation needs, and `apply` takes them as
//! given.

pub mod accept_proposal;
pub mod cancel_offer;
pub mod execute_swap;
pub mod initialize_offer;
pub mod submit_proposal;
pub mod withdraw_proposal;

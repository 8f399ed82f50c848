//! The records that the protocol keeps on the ledger.

pub mod offer;
pub mod proposal;

//! The kinds of failure that an operation can signal.

use vstd::prelude::*;

verus! {

/// The class that every failure of the protocol belongs to.
#[derive(Clone, Copy, Debug, PartialEq, Eq, Structural)]
pub enum ErrorKind {
    /// The caller is not the seller or buyer that the operation requires.
    Unauthorized,
    /// A referenced record is absent or does not fit the operation.
    PreconditionFailed,
    /// A source account cannot fund what the operation moves out of it.
    InsufficientBalance,
    /// A record would be created at an address that is already in use.
    DuplicateRecord,
}

} // verus!

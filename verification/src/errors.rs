//! The error taxonomy of the ledger. Every precondition failure aborts the
//! whole call with zero state mutation; the variant says which check failed.

use vstd::prelude::*;

verus! {

/// Why a call was rejected. `NegativeBalanceInvariantViolation` is an
/// internal, fatal condition: the engine's own transitions prove that it
/// never arises, because every balance decrement sits behind a verified
/// ownership check.
#[derive(Clone, Copy, Debug, PartialEq, Eq, Structural)]
pub enum Error {
    AlreadyInitialized,
    Uninitialized,
    NotOwner,
    NotAdmin,
    NotApproved,
    NonceMismatch,
    InvalidInvokerNonce,
    AlreadyMinted,
    UnknownToken,
    NegativeBalanceInvariantViolation,
}

} // verus!

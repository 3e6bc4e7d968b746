//! The error taxonomy of the escrow ledger. Every guard failure aborts the
//! operation before any state is touched, and the first violated guard (in
//! the fixed order each operation documents) determines the error reported.

use vstd::prelude::*;

verus! {

/// Why an escrow operation was refused.
#[derive(Clone, Copy, Debug, PartialEq, Eq, Structural)]
pub enum Error {
    /// `initialize` was called on an already-configured ledger.
    AlreadyInitialized,
    /// The ledger is not configured, or the addressed record does not exist.
    NotInitialized,
    /// `release_to_sdp` was called before the record's payout date.
    PayoutDateNotReached,
    /// The record's principal has already been released.
    AlreadyReleased,
    /// The record's yield has already been claimed.
    AlreadyClaimed,
    /// The call did not carry an authorization proof from the employer.
    Unauthorized,
    /// Checked arithmetic on amounts overflowed.
    InsufficientFunds,
    /// `claim_yield` was called before the principal was released.
    NotYetReleased,
    /// A negative amount was offered for locking.
    InvalidAmount,
    /// The requested payout date does not lie strictly in the future.
    InvalidPayoutDate,
}

} // verus!

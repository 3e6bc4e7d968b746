//! The custody record: one locked payroll batch per `(employer, batch_id)`.

use vstd::prelude::*;

verus! {

/// An account identity. The host environment maps its opaque account
/// addresses to these plain identifiers one-to-one; the ledger only ever
/// compares them for equality.
pub type Address = u64;

/// One locked payroll batch. Created by `lock_payroll`, advanced by
/// `release_to_sdp` and `claim_yield`; no transition ever regresses a flag
/// from `true` back to `false`.
#[derive(Clone, Copy, Debug, PartialEq, Eq, Structural)]
pub struct PayrollLock {
    /// Owner of the locked funds; set once at creation, never mutated.
    pub employer: Address,
    /// Principal locked for this batch; non-negative, immutable.
    pub total_amount: i128,
    /// Vault shares received on deposit; 0 when no vault is integrated.
    pub vault_shares: i128,
    /// Ledger time at creation.
    pub lock_date: u64,
    /// Time at or after which release is permitted; strictly after `lock_date`.
    pub payout_date: u64,
    /// Realized yield; 0 until written exactly once by release.
    pub yield_earned: i128,
    /// Principal forwarded to the disbursement wallet.
    pub funds_released: bool,
    /// Yield paid out to the employer; only possible after release.
    pub yield_claimed: bool,
}

impl PayrollLock {
    /// The record invariant: established at creation, preserved by every
    /// transition.
    pub open spec fn wf(self) -> bool {
        &&& self.total_amount >= 0
        &&& self.payout_date > self.lock_date
        &&& self.yield_earned >= 0
        &&& (!self.funds_released ==> self.yield_earned == 0)
        &&& (self.yield_claimed ==> self.funds_released)
    }
}

} // verus!

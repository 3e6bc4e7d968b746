//! Escrow-and-yield ledger: funds locked by an employer for a payroll batch,
//! forwarded to a yield vault, released to a disbursement wallet at maturity,
//! with the accrued yield claimable once by the employer.
//!
//! The ledger itself is a deterministic state machine keyed by
//! `(employer, batch_id)`. Everything the machine decides is verified here;
//! the host environment (token transfers, vault deposits and withdrawals,
//! authorization proofs, the clock) acts through an adapter that feeds the
//! machine plain values and carries its decisions out.

pub mod errors;
pub mod interest;
pub mod laws;
pub mod ledger;
pub mod record;
pub mod steps;

//! The per-record transitions of the escrow state machine, each given as a
//! spec-level transition function and an executable twin proved equal to it.
//! The host adapter calls these on the record it loaded, performs the value
//! movements they imply, and stores the record they return; the whole-ledger
//! operations in `ledger` go through the same functions, so the guard order
//! and the arithmetic are verified once.

use vstd::prelude::*;
use crate::errors::Error;
use crate::interest::{
    compute_simple_interest, compute_vault_yield, days_elapsed, interest_overflows,
    simple_interest, vault_yield,
};
use crate::record::{Address, PayrollLock};

verus! {

/// Validates an amount offered for locking.
pub fn check_nonnegative_amount(amount: i128) -> (r: Result<(), Error>)
    ensures
        r == (if amount < 0 {
            Err::<(), Error>(Error::InvalidAmount)
        } else {
            Ok::<(), Error>(())
        }),
{
    if amount < 0 {
        return Err(Error::InvalidAmount);
    }
    Ok(())
}

/// The guard verdict of `lock_payroll`, in its fixed order: authorization
/// proof, non-negative amount, payout date strictly in the future,
/// configured ledger.
pub open spec fn lock_check(
    total_amount: i128,
    payout_date: u64,
    now: u64,
    authorized: bool,
    initialized: bool,
) -> Result<(), Error> {
    if !authorized {
        Err(Error::Unauthorized)
    } else if total_amount < 0 {
        Err(Error::InvalidAmount)
    } else if payout_date <= now {
        Err(Error::InvalidPayoutDate)
    } else if !initialized {
        Err(Error::NotInitialized)
    } else {
        Ok(())
    }
}

/// Evaluates the `lock_payroll` guards without touching any state, so a
/// caller can refuse a request before moving any value.
pub fn check_lock(
    total_amount: i128,
    payout_date: u64,
    now: u64,
    authorized: bool,
    initialized: bool,
) -> (r: Result<(), Error>)
    ensures
        r == lock_check(total_amount, payout_date, now, authorized, initialized),
{
    if !authorized {
        return Err(Error::Unauthorized);
    }
    check_nonnegative_amount(total_amount)?;
    if payout_date <= now {
        return Err(Error::InvalidPayoutDate);
    }
    if !initialized {
        return Err(Error::NotInitialized);
    }
    Ok(())
}

/// The record a successful lock creates: flags down, no yield yet, locked at
/// the current ledger time.
pub open spec fn fresh_lock(
    employer: Address,
    total_amount: i128,
    vault_shares: i128,
    now: u64,
    payout_date: u64,
) -> PayrollLock {
    PayrollLock {
        employer,
        total_amount,
        vault_shares,
        lock_date: now,
        payout_date,
        yield_earned: 0,
        funds_released: false,
        yield_claimed: false,
    }
}

/// Builds the record of a newly locked batch.
pub fn new_lock(
    employer: Address,
    total_amount: i128,
    vault_shares: i128,
    now: u64,
    payout_date: u64,
) -> (l: PayrollLock)
    requires
        total_amount >= 0,
        payout_date > now,
    ensures
        l == fresh_lock(employer, total_amount, vault_shares, now, payout_date),
        l.wf(),
{
    PayrollLock {
        employer,
        total_amount,
        vault_shares,
        lock_date: now,
        payout_date,
        yield_earned: 0,
        funds_released: false,
        yield_claimed: false,
    }
}

/// What a release realizes as yield: the vault surplus when vault shares
/// were minted at lock time, the simple-interest projection otherwise.
pub open spec fn release_yield(l: PayrollLock, now: u64, total_withdrawn: i128) -> int {
    if l.vault_shares != 0 {
        vault_yield(total_withdrawn as int, l.total_amount as int)
    } else {
        simple_interest(l.total_amount as int, days_elapsed(l.lock_date, now))
    }
}

/// When the release computation overflows: only the simple-interest
/// fallback can, the vault surplus always fits.
pub open spec fn release_overflows(l: PayrollLock, now: u64) -> bool {
    l.vault_shares == 0 && interest_overflows(
        l.total_amount as int,
        days_elapsed(l.lock_date, now),
    )
}

/// The `release_to_sdp` transition on one record: guards in order (payout
/// date reached, not yet released), then the realized yield is written and
/// the released flag set, exactly once.
pub open spec fn release_step_spec(l: PayrollLock, now: u64, total_withdrawn: i128) -> Result<
    (PayrollLock, i128),
    Error,
> {
    if now < l.payout_date {
        Err(Error::PayoutDateNotReached)
    } else if l.funds_released {
        Err(Error::AlreadyReleased)
    } else if release_overflows(l, now) {
        Err(Error::InsufficientFunds)
    } else {
        let y = release_yield(l, now, total_withdrawn) as i128;
        Ok((PayrollLock { yield_earned: y, funds_released: true, ..l }, y))
    }
}

/// Runs the release transition on a record. On success the returned amount
/// is the realized yield, the updated record carries it, and the caller owes
/// the record's principal to the disbursement wallet.
pub fn release_step(l: &PayrollLock, now: u64, total_withdrawn: i128) -> (r: Result<
    (PayrollLock, i128),
    Error,
>)
    requires
        l.wf(),
    ensures
        r == release_step_spec(*l, now, total_withdrawn),
        r matches Ok((l2, y)) ==> l2.wf() && y >= 0,
{
    if now < l.payout_date {
        return Err(Error::PayoutDateNotReached);
    }
    if l.funds_released {
        return Err(Error::AlreadyReleased);
    }
    let y: i128 = if l.vault_shares != 0 {
        compute_vault_yield(total_withdrawn, l.total_amount)
    } else {
        match compute_simple_interest(l.total_amount, l.lock_date, now) {
            Ok(y) => y,
            Err(e) => {
                return Err(e);
            },
        }
    };
    let mut updated = *l;
    updated.yield_earned = y;
    updated.funds_released = true;
    Ok((updated, y))
}

/// The `claim_yield` transition on one record: guards in order
/// (authorization proof from the owning employer, released, not yet
/// claimed), then the claimed flag is set and the full accrued yield owed
/// to the employer.
pub open spec fn claim_step_spec(l: PayrollLock, authorized: bool) -> Result<
    (PayrollLock, i128),
    Error,
> {
    if !authorized {
        Err(Error::Unauthorized)
    } else if !l.funds_released {
        Err(Error::NotYetReleased)
    } else if l.yield_claimed {
        Err(Error::AlreadyClaimed)
    } else {
        Ok((PayrollLock { yield_claimed: true, ..l }, l.yield_earned))
    }
}

/// Runs the claim transition on a record. On success the returned amount —
/// exactly the record's realized yield — is owed to the employer, and the
/// record is terminal: every later claim is refused.
pub fn claim_step(l: &PayrollLock, authorized: bool) -> (r: Result<(PayrollLock, i128), Error>)
    requires
        l.wf(),
    ensures
        r == claim_step_spec(*l, authorized),
        r matches Ok((l2, y)) ==> l2.wf() && y == l.yield_earned,
{
    if !authorized {
        return Err(Error::Unauthorized);
    }
    if !l.funds_released {
        return Err(Error::NotYetReleased);
    }
    if l.yield_claimed {
        return Err(Error::AlreadyClaimed);
    }
    let mut updated = *l;
    updated.yield_claimed = true;
    Ok((updated, l.yield_earned))
}

} // verus!

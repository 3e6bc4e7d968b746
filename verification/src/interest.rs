//! Yield arithmetic: the deterministic simple-interest projection used when
//! no vault is integrated, and the realized-yield computation used when a
//! vault withdrawal reports what actually came back. All arithmetic is
//! checked; overflow surfaces as `Error::InsufficientFunds`, never a panic
//! or a silent wrap.

use vstd::prelude::*;
use crate::errors::Error;
use vstd::arithmetic::div_mod::{lemma_div_nonincreasing, lemma_div_pos_is_pos};

verus! {

/// Seconds in one ledger day.
pub const SECONDS_PER_DAY: u64 = 86400;

/// Whole days elapsed between the lock time and `now`.
pub open spec fn days_elapsed(lock_date: u64, now: u64) -> int
    recommends
        now >= lock_date,
{
    (now - lock_date) / (SECONDS_PER_DAY as int)
}

/// The simple-interest projection: 4% per annum on the principal, accrued
/// per whole day, truncating division. `365 * 100` scales the 4%-per-365-days
/// rate into integer arithmetic.
pub open spec fn simple_interest(total_amount: int, days: int) -> int {
    total_amount * 4 * days / ((365 * 100) as int)
}

/// When the checked simple-interest computation on `i128` values overflows.
pub open spec fn interest_overflows(total_amount: int, days: int) -> bool {
    total_amount * 4 > i128::MAX || total_amount * 4 * days > i128::MAX
}

/// The realized yield of a vault withdrawal: what came back beyond the
/// principal, floored at zero.
pub open spec fn vault_yield(total_withdrawn: int, principal: int) -> int {
    if total_withdrawn - principal > 0 {
        total_withdrawn - principal
    } else {
        0
    }
}

/// Computes the simple-interest projection for a principal locked at
/// `lock_date`, read at `now`, with checked arithmetic.
pub fn compute_simple_interest(total_amount: i128, lock_date: u64, now: u64) -> (r: Result<
    i128,
    Error,
>)
    requires
        total_amount >= 0,
        now >= lock_date,
    ensures
        ({
            let days = days_elapsed(lock_date, now);
            if interest_overflows(total_amount as int, days) {
                r == Err::<i128, Error>(Error::InsufficientFunds)
            } else {
                r == Ok::<i128, Error>(simple_interest(total_amount as int, days) as i128)
                    && simple_interest(total_amount as int, days) == r->Ok_0
            }
        }),
{
    let days: u64 = (now - lock_date) / SECONDS_PER_DAY;
    let days_i: i128 = days as i128;
    match total_amount.checked_mul(4) {
        None => Err(Error::InsufficientFunds),
        Some(scaled) => match scaled.checked_mul(days_i) {
            None => Err(Error::InsufficientFunds),
            Some(accrued) => {
                proof {
                    lemma_div_pos_is_pos(accrued as int, 36500);
                    lemma_div_nonincreasing(accrued as int, 36500);
                }
                match accrued.checked_div(36500) {
                    None => Err(Error::InsufficientFunds),
                    Some(y) => Ok(y),
                }
            },
        },
    }
}

/// Computes the realized yield from a vault withdrawal with checked
/// arithmetic; a shortfall (or an underflowing difference) realizes no
/// yield rather than a negative one.
pub fn compute_vault_yield(total_withdrawn: i128, principal: i128) -> (y: i128)
    requires
        principal >= 0,
    ensures
        y == vault_yield(total_withdrawn as int, principal as int),
        y >= 0,
{
    match total_withdrawn.checked_sub(principal) {
        None => 0,
        Some(d) => if d > 0 {
            d
        } else {
            0
        },
    }
}

} // verus!

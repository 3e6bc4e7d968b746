//! The laws of the escrow state machine, stated once over the spec-level
//! transition functions that the executable operations are proved equal to.
//! Each is a theorem about every reachable record and every input, not a
//! check of chosen values.

use vstd::prelude::*;
use vstd::arithmetic::div_mod::{lemma_div_nonincreasing, lemma_div_pos_is_pos};
use vstd::arithmetic::mul::lemma_mul_nonnegative;
use crate::errors::Error;
use crate::interest::{days_elapsed, simple_interest};
use crate::record::{Address, PayrollLock};
use crate::steps::{claim_step_spec, fresh_lock, lock_check, release_step_spec};
use crate::ledger::PayrollYieldContract;

verus! {

/// An authorized lock of a valid amount whose payout date is not strictly
/// in the future is always refused with `InvalidPayoutDate`, whether or not
/// the ledger is configured — so no record is ever created for it.
pub proof fn lemma_stale_payout_date_refused(
    total_amount: i128,
    payout_date: u64,
    now: u64,
    initialized: bool,
)
    requires
        total_amount >= 0,
        payout_date <= now,
    ensures
        lock_check(total_amount, payout_date, now, true, initialized) == Err::<(), Error>(
            Error::InvalidPayoutDate,
        ),
{
}

/// The record a successful lock creates starts unreleased, unclaimed and
/// with no yield, whatever the arguments were.
pub proof fn lemma_fresh_record_starts_locked(
    employer: Address,
    total_amount: i128,
    vault_shares: i128,
    now: u64,
    payout_date: u64,
)
    ensures
        !fresh_lock(employer, total_amount, vault_shares, now, payout_date).funds_released,
        !fresh_lock(employer, total_amount, vault_shares, now, payout_date).yield_claimed,
        fresh_lock(employer, total_amount, vault_shares, now, payout_date).yield_earned == 0,
{
}

/// A release before the payout date is always refused with
/// `PayoutDateNotReached`, whatever the record's state or the vault's
/// report.
pub proof fn lemma_early_release_refused(l: PayrollLock, now: u64, total_withdrawn: i128)
    requires
        now < l.payout_date,
    ensures
        release_step_spec(l, now, total_withdrawn) == Err::<(PayrollLock, i128), Error>(
            Error::PayoutDateNotReached,
        ),
{
}

/// Release happens at most once: after a successful release, every later
/// release attempt — the clock never going backwards — is refused with
/// `AlreadyReleased`, and refusal leaves the record as it was, so the
/// written yield and the released flag never change again.
pub proof fn lemma_release_happens_once(
    l: PayrollLock,
    now1: u64,
    w1: i128,
    now2: u64,
    w2: i128,
)
    requires
        release_step_spec(l, now1, w1) matches Ok(_),
        now2 >= now1,
    ensures
        ({
            let (l2, y) = release_step_spec(l, now1, w1)->Ok_0;
            &&& release_step_spec(l2, now2, w2) == Err::<(PayrollLock, i128), Error>(
                Error::AlreadyReleased,
            )
            &&& l2.funds_released
            &&& l2.yield_earned == y
        }),
{
}

/// A claim before release is refused with `NotYetReleased`; the first
/// authorized claim after release pays exactly the recorded yield; and any
/// claim after it is refused with `AlreadyClaimed`, paying nothing — the
/// claim is the record's terminal transition.
pub proof fn lemma_yield_claimed_once(l: PayrollLock)
    ensures
        !l.funds_released ==> claim_step_spec(l, true) == Err::<(PayrollLock, i128), Error>(
            Error::NotYetReleased,
        ),
        l.funds_released && !l.yield_claimed ==> (claim_step_spec(l, true) matches Ok((l2, y))
            && y == l.yield_earned && l2.yield_claimed),
        (claim_step_spec(l, true) matches Ok((l2, y)) ==> claim_step_spec(l2, true) == Err::<
            (PayrollLock, i128),
            Error,
        >(Error::AlreadyClaimed)),
{
}

/// A claim that carries no authorization proof from the owning employer is
/// refused with `Unauthorized`, whatever state the record is in.
pub proof fn lemma_unauthorized_claim_refused(l: PayrollLock)
    ensures
        claim_step_spec(l, false) == Err::<(PayrollLock, i128), Error>(Error::Unauthorized),
{
}

/// Without a vault, the yield a release writes is exactly the
/// simple-interest projection for the release time — so a preview computed
/// at time `t` equals the yield a release at `t` realizes.
pub proof fn lemma_preview_matches_release(l: PayrollLock, t: u64, total_withdrawn: i128)
    requires
        l.wf(),
        l.vault_shares == 0,
        release_step_spec(l, t, total_withdrawn) matches Ok(_),
    ensures
        ({
            let (l2, y) = release_step_spec(l, t, total_withdrawn)->Ok_0;
            &&& y == simple_interest(l.total_amount as int, days_elapsed(l.lock_date, t))
            &&& l2.yield_earned == y
        }),
{
    let days = days_elapsed(l.lock_date, t);
    let accrued = l.total_amount * 4 * days;
    lemma_mul_nonnegative(l.total_amount * 4, days);
    lemma_div_pos_is_pos(accrued, 36500);
    lemma_div_nonincreasing(accrued, 36500);
}

/// Batch ids never collide: each successful lock returns the employer's
/// batch count and leaves it one higher, so two locks for the same
/// employer — however they interleave with other operations that all
/// preserve the count — return distinct ids.
pub proof fn lemma_batch_ids_never_collide(
    s0: PayrollYieldContract,
    s1: PayrollYieldContract,
    e: Address,
    b1: u64,
    b2: u64,
)
    requires
        b1 == s0.next_batch_id(e),
        s1.next_batch_id(e) == s0.next_batch_id(e) + 1,
        b2 == s1.next_batch_id(e),
        s1.next_batch_id(e) <= u64::MAX,
    ensures
        b1 != b2,
{
}

/// Along any run of successful locks for one employer — each leaving the
/// batch counter one higher, as `lock_payroll` ensures — the counter
/// strictly increases, so the ids the locks return (each the counter read
/// at its step) are pairwise distinct, however many steps lie between them.
pub proof fn lemma_batch_sequence_strictly_increases(
    states: Seq<PayrollYieldContract>,
    e: Address,
    i: int,
    j: int,
)
    requires
        forall|k: int|
            0 <= k < states.len() - 1 ==> #[trigger] states[k + 1].next_batch_id(e) == states[k].next_batch_id(e) + 1,
        0 <= i < j < states.len(),
    ensures
        states[i].next_batch_id(e) < states[j].next_batch_id(e),
    decreases j - i,
{
    if i + 1 == j {
        assert(states[i + 1].next_batch_id(e) == states[i].next_batch_id(e) + 1);
    } else {
        lemma_batch_sequence_strictly_increases(states, e, i, j - 1);
        assert(states[j - 1 + 1].next_batch_id(e) == states[j - 1].next_batch_id(e) + 1);
    }
}

/// Starting from a fresh ledger — batch counter 0, as `new` ensures — the
/// counter after `k` successful locks for an employer is exactly `k`; so
/// the id each lock returns equals the employer's prior successful-lock
/// count: 0, 1, 2, and so on.
pub proof fn lemma_batch_ids_count_prior_locks(
    states: Seq<PayrollYieldContract>,
    e: Address,
    k: int,
)
    requires
        states.len() > 0,
        states[0].next_batch_id(e) == 0,
        forall|m: int|
            0 <= m < states.len() - 1 ==> #[trigger] states[m + 1].next_batch_id(e) == states[m].next_batch_id(e) + 1,
        0 <= k < states.len(),
    ensures
        states[k].next_batch_id(e) == k,
    decreases k,
{
    if k > 0 {
        lemma_batch_ids_count_prior_locks(states, e, k - 1);
        assert(states[k - 1 + 1].next_batch_id(e) == states[k - 1].next_batch_id(e) + 1);
    }
}

/// No transition regresses a flag: whatever a release or a claim does to a
/// record, a flag that was set stays set.
pub proof fn lemma_flags_never_regress(l: PayrollLock, now: u64, w: i128, authorized: bool)
    ensures
        release_step_spec(l, now, w) matches Ok((l2, _)) ==> (l.funds_released ==> l2.funds_released)
            && (l.yield_claimed ==> l2.yield_claimed),
        claim_step_spec(l, authorized) matches Ok((l2, _)) ==> (l.funds_released
            ==> l2.funds_released) && (l.yield_claimed ==> l2.yield_claimed),
{
}

} // verus!

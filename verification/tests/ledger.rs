use payday_yield::errors::Error;
use payday_yield::ledger::{Event, PayrollYieldContract};

const DAY: u64 = 86400;

/// A configured ledger with no batches.
fn configured() -> PayrollYieldContract {
    let mut c = PayrollYieldContract::new();
    assert_eq!(c.initialize(1, 2), Ok(()));
    c
}

#[test]
fn test_initialize_only_once() {
    let mut c = PayrollYieldContract::new();
    assert_eq!(c.initialize(1, 2), Ok(()));
    assert_eq!(c.initialize(3, 4), Err(Error::AlreadyInitialized));
}

#[test]
fn test_lock_requires_initialization() {
    let mut c = PayrollYieldContract::new();
    assert_eq!(c.lock_payroll(10, 1000, DAY, 0, true, 0), Err(Error::NotInitialized));
}

#[test]
fn test_lock_requires_authorization() {
    let mut c = configured();
    assert_eq!(c.lock_payroll(10, 1000, DAY, 0, false, 0), Err(Error::Unauthorized));
    assert_eq!(c.get_status(10, 0), Err(Error::NotInitialized));
}

#[test]
fn test_lock_rejects_negative_amount() {
    let mut c = configured();
    assert_eq!(c.lock_payroll(10, -1, DAY, 0, true, 0), Err(Error::InvalidAmount));
    assert_eq!(c.get_status(10, 0), Err(Error::NotInitialized));
}

#[test]
fn test_lock_rejects_stale_payout_date() {
    let mut c = configured();
    // maturity == now and maturity < now both fail; no record appears.
    assert_eq!(c.lock_payroll(10, 1000, 500, 500, true, 0), Err(Error::InvalidPayoutDate));
    assert_eq!(c.lock_payroll(10, 1000, 499, 500, true, 0), Err(Error::InvalidPayoutDate));
    assert_eq!(c.get_status(10, 0), Err(Error::NotInitialized));
    assert!(c.events.is_empty());
}

#[test]
fn test_lock_assigns_sequential_batch_ids() {
    let mut c = configured();
    assert_eq!(c.lock_payroll(10, 100, DAY, 0, true, 0), Ok(0));
    assert_eq!(c.lock_payroll(10, 200, DAY, 0, true, 0), Ok(1));
    assert_eq!(c.lock_payroll(10, 300, DAY, 0, true, 0), Ok(2));
    // another employer has its own sequence
    assert_eq!(c.lock_payroll(11, 400, DAY, 0, true, 0), Ok(0));
    assert_eq!(c.lock_payroll(11, 500, DAY, 0, true, 0), Ok(1));
    // a failed lock does not advance the sequence
    assert_eq!(c.lock_payroll(10, -5, DAY, 0, true, 0), Err(Error::InvalidAmount));
    assert_eq!(c.lock_payroll(10, 600, DAY, 0, true, 0), Ok(3));
}

#[test]
fn test_lock_status_reflects_fresh_record() {
    let mut c = configured();
    assert_eq!(c.lock_payroll(10, 1000, 3 * DAY, DAY, true, 77), Ok(0));
    let l = c.get_status(10, 0).unwrap();
    assert_eq!(l.employer, 10);
    assert_eq!(l.total_amount, 1000);
    assert_eq!(l.vault_shares, 77);
    assert_eq!(l.lock_date, DAY);
    assert_eq!(l.payout_date, 3 * DAY);
    assert_eq!(l.yield_earned, 0);
    assert!(!l.funds_released);
    assert!(!l.yield_claimed);
}

#[test]
fn test_get_status_unknown_record() {
    let mut c = configured();
    assert_eq!(c.get_status(10, 0), Err(Error::NotInitialized));
    assert_eq!(c.lock_payroll(10, 1000, DAY, 0, true, 0), Ok(0));
    assert_eq!(c.get_status(10, 1), Err(Error::NotInitialized));
    assert_eq!(c.get_status(11, 0), Err(Error::NotInitialized));
}

#[test]
fn test_release_before_maturity_fails() {
    let mut c = configured();
    assert_eq!(c.lock_payroll(10, 1000, 10 * DAY, 0, true, 0), Ok(0));
    assert_eq!(c.release_to_sdp(10, 0, 99, 10 * DAY - 1, 0), Err(Error::PayoutDateNotReached));
    let l = c.get_status(10, 0).unwrap();
    assert!(!l.funds_released);
    assert_eq!(l.yield_earned, 0);
}

#[test]
fn test_release_unknown_record() {
    let mut c = configured();
    assert_eq!(c.release_to_sdp(10, 0, 99, DAY, 0), Err(Error::NotInitialized));
}

#[test]
fn test_release_twice_fails_and_preserves_record() {
    let mut c = configured();
    assert_eq!(c.lock_payroll(10, 36500, DAY, 0, true, 0), Ok(0));
    // 10 days at 4% per annum on 36500: 36500 * 4 * 10 / 36500 = 40
    assert_eq!(c.release_to_sdp(10, 0, 99, 10 * DAY, 0), Ok(40));
    let after_first = c.get_status(10, 0).unwrap();
    assert!(after_first.funds_released);
    assert_eq!(after_first.yield_earned, 40);
    // the second call is refused and changes nothing, even later
    assert_eq!(c.release_to_sdp(10, 0, 99, 20 * DAY, 0), Err(Error::AlreadyReleased));
    assert_eq!(c.get_status(10, 0).unwrap(), after_first);
}

#[test]
fn test_release_with_vault_uses_withdrawn_amount() {
    let mut c = configured();
    assert_eq!(c.lock_payroll(10, 1000, DAY, 0, true, 7), Ok(0));
    // the vault returned 1100 for a principal of 1000: 100 of yield
    assert_eq!(c.release_to_sdp(10, 0, 99, DAY, 1100), Ok(100));
    assert_eq!(c.get_status(10, 0).unwrap().yield_earned, 100);
}

#[test]
fn test_release_with_vault_shortfall_realizes_no_yield() {
    let mut c = configured();
    assert_eq!(c.lock_payroll(10, 1000, DAY, 0, true, 7), Ok(0));
    assert_eq!(c.release_to_sdp(10, 0, 99, DAY, 950), Ok(0));
    assert_eq!(c.get_status(10, 0).unwrap().yield_earned, 0);
}

#[test]
fn test_release_exactly_at_maturity_with_no_full_day() {
    let mut c = configured();
    assert_eq!(c.lock_payroll(10, 1000, 100, 0, true, 0), Ok(0));
    // less than one whole day elapsed: no accrual
    assert_eq!(c.release_to_sdp(10, 0, 99, 100, 0), Ok(0));
}

#[test]
fn test_can_release_guards_and_returns_shares() {
    let mut c = configured();
    assert_eq!(c.can_release(10, 0, DAY), Err(Error::NotInitialized));
    assert_eq!(c.lock_payroll(10, 1000, DAY, 0, true, 7), Ok(0));
    assert_eq!(c.can_release(10, 0, DAY - 1), Err(Error::PayoutDateNotReached));
    assert_eq!(c.can_release(10, 0, DAY), Ok(7));
    assert_eq!(c.release_to_sdp(10, 0, 99, DAY, 1000), Ok(0));
    assert_eq!(c.can_release(10, 0, DAY), Err(Error::AlreadyReleased));
}

#[test]
fn test_claim_before_release_fails() {
    let mut c = configured();
    assert_eq!(c.lock_payroll(10, 1000, DAY, 0, true, 0), Ok(0));
    assert_eq!(c.claim_yield(10, 0, true), Err(Error::NotYetReleased));
}

#[test]
fn test_claim_pays_exactly_yield_then_refuses() {
    let mut c = configured();
    assert_eq!(c.lock_payroll(10, 1000, DAY, 0, true, 7), Ok(0));
    assert_eq!(c.release_to_sdp(10, 0, 99, DAY, 1250), Ok(250));
    assert_eq!(c.claim_yield(10, 0, true), Ok(250));
    let l = c.get_status(10, 0).unwrap();
    assert!(l.yield_claimed);
    assert_eq!(l.yield_earned, 250);
    assert_eq!(c.claim_yield(10, 0, true), Err(Error::AlreadyClaimed));
    assert_eq!(c.get_status(10, 0).unwrap(), l);
}

#[test]
fn test_claim_unauthorized_in_every_state() {
    let mut c = configured();
    assert_eq!(c.lock_payroll(10, 1000, DAY, 0, true, 0), Ok(0));
    assert_eq!(c.claim_yield(10, 0, false), Err(Error::Unauthorized));
    assert_eq!(c.release_to_sdp(10, 0, 99, 2 * DAY, 0), Ok(0));
    assert_eq!(c.claim_yield(10, 0, false), Err(Error::Unauthorized));
    assert_eq!(c.claim_yield(10, 0, true), Ok(0));
    assert_eq!(c.claim_yield(10, 0, false), Err(Error::Unauthorized));
}

#[test]
fn test_claim_unknown_record() {
    let mut c = configured();
    assert_eq!(c.claim_yield(10, 0, true), Err(Error::NotInitialized));
}

#[test]
fn test_preview_matches_release_yield() {
    let mut c = configured();
    assert_eq!(c.lock_payroll(10, 123456, 30 * DAY, 0, true, 0), Ok(0));
    // before maturity the preview shows the accrual so far
    assert_eq!(c.calculate_current_yield(10, 0, 10 * DAY).unwrap(), 123456 * 4 * 10 / 36500);
    // the preview at t equals the yield a release at exactly t realizes
    let t = 45 * DAY + 12345;
    let preview = c.calculate_current_yield(10, 0, t).unwrap();
    assert_eq!(preview, 123456 * 4 * 45 / 36500);
    assert_eq!(c.release_to_sdp(10, 0, 99, t, 0), Ok(preview));
    assert_eq!(c.get_status(10, 0).unwrap().yield_earned, preview);
}

#[test]
fn test_preview_overflow_reports_insufficient_funds() {
    let mut c = configured();
    assert_eq!(c.lock_payroll(10, i128::MAX, 10 * DAY, 0, true, 0), Ok(0));
    assert_eq!(c.calculate_current_yield(10, 0, DAY), Err(Error::InsufficientFunds));
    // the release fallback hits the same checked arithmetic and changes nothing
    assert_eq!(c.release_to_sdp(10, 0, 99, 10 * DAY, 0), Err(Error::InsufficientFunds));
    let l = c.get_status(10, 0).unwrap();
    assert!(!l.funds_released);
    assert_eq!(l.yield_earned, 0);
}

#[test]
fn test_full_scenario_four_percent_year() {
    // lock(alice, 1000, now + 100 days), wait 365 days, release, claim.
    let alice = 10;
    let bob = 99;
    let mut c = configured();
    assert_eq!(c.lock_payroll(alice, 1000, 100 * DAY, 0, true, 0), Ok(0));
    let year = 365 * DAY;
    assert_eq!(c.release_to_sdp(alice, 0, bob, year, 0), Ok(40));
    assert_eq!(c.claim_yield(alice, 0, true), Ok(40));
    assert_eq!(c.claim_yield(alice, 0, true), Err(Error::AlreadyClaimed));
}

#[test]
fn test_events_are_appended_in_order() {
    let mut c = configured();
    assert_eq!(c.lock_payroll(10, 1000, DAY, 0, true, 7), Ok(0));
    assert_eq!(c.release_to_sdp(10, 0, 99, DAY, 1100), Ok(100));
    assert_eq!(c.claim_yield(10, 0, true), Ok(100));
    assert_eq!(
        c.events,
        vec![
            Event::Locked { employer: 10, batch_id: 0 },
            Event::Released { employer: 10, batch_id: 0, yield_earned: 100, sdp_wallet: 99 },
            Event::Yield { employer: 10, batch_id: 0 },
        ]
    );
}

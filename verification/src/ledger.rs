//! The Escrow Ledger: a deterministic state machine keyed by
//! `(employer, batch_id)`. It owns every record field; the vault, the token
//! service, the authorization system and the clock are external
//! collaborators whose results enter each operation as plain arguments, and
//! whose duties (value transfers, event publication) leave it as returned
//! values and appended outbound events.

use vstd::prelude::*;
use crate::errors::Error;
use crate::record::{Address, PayrollLock};
use crate::steps::{
    check_lock, claim_step, claim_step_spec, fresh_lock, lock_check, new_lock, release_step,
    release_step_spec,
};
use crate::interest::{compute_simple_interest, days_elapsed, interest_overflows, simple_interest};

verus! {

/// Taking an element out and putting another back at the same position is
/// an in-place update.
proof fn lemma_remove_insert_is_update<T>(s: Seq<T>, i: int, x: T)
    requires
        0 <= i < s.len(),
    ensures
        s.remove(i).insert(i, x) =~= s.update(i, x),
{
    s.remove_ensures(i);
    s.remove(i).insert_ensures(i, x);
    assert forall|k: int| 0 <= k < s.len() implies s.remove(i).insert(i, x)[k] == s.update(
        i,
        x,
    )[k] by {
        if k > i {
            assert(s.remove(i).insert(i, x)[k] == s.remove(i)[k - 1]);
            assert(s.remove(i)[k - 1] == s[k]);
        }
    }
}

/// The one-time process configuration: where deposits go and which token
/// moves. Set once by `initialize`, never changed.
#[derive(Clone, Copy, Debug, PartialEq, Eq, Structural)]
pub struct Config {
    /// The vault that accepts deposits and returns withdrawable value.
    pub defindex_pool: Address,
    /// The fungible token in which all amounts are denominated.
    pub token: Address,
}

/// An outbound notification, appended on each successful transition and
/// consumed by external observers; the ledger never reads it back.
#[derive(Clone, Copy, Debug, PartialEq, Eq, Structural)]
pub enum Event {
    /// A batch was locked.
    Locked { employer: Address, batch_id: u64 },
    /// A batch's principal was released to a disbursement wallet.
    Released { employer: Address, batch_id: u64, yield_earned: i128, sdp_wallet: Address },
    /// A batch's yield was paid out to its employer.
    Yield { employer: Address, batch_id: u64 },
}

/// All batches of one employer, in creation order: the batch id of a record
/// is its position, so ids count the employer's successful locks from 0 and
/// are never reused.
pub struct EmployerBatches {
    /// The employer every record in `batches` belongs to.
    pub employer: Address,
    /// The employer's records; index = batch id.
    pub batches: Vec<PayrollLock>,
}

/// The escrow ledger state machine.
pub struct PayrollYieldContract {
    /// `None` until `initialize` has run.
    pub config: Option<Config>,
    /// One slot per employer that ever locked a batch; employers unique.
    pub entries: Vec<EmployerBatches>,
    /// Outbound notifications in emission order.
    pub events: Vec<Event>,
}

impl EmployerBatches {
    /// Every record in the slot is well formed and owned by the slot's
    /// employer.
    pub open spec fn wf(self) -> bool {
        forall|k: int|
            0 <= k < self.batches@.len() ==> (#[trigger] self.batches@[k]).wf()
                && self.batches@[k].employer == self.employer
    }
}

impl PayrollYieldContract {
    /// Whether `initialize` has run.
    pub open spec fn initialized(self) -> bool {
        self.config is Some
    }

    /// No two slots belong to the same employer.
    pub open spec fn emp_unique(self) -> bool {
        forall|i: int, j: int|
            #![trigger self.entries@[i], self.entries@[j]]
            0 <= i < j < self.entries@.len() ==> self.entries@[i].employer
                != self.entries@[j].employer
    }

    /// Whether some batch was ever locked for `e`.
    pub open spec fn has_employer(self, e: Address) -> bool {
        exists|i: int| 0 <= i < self.entries@.len() && (#[trigger] self.entries@[i]).employer == e
    }

    /// The slot index of employer `e` (meaningful when `has_employer(e)`;
    /// unique by `emp_unique`).
    pub open spec fn emp_index(self, e: Address) -> int {
        choose|i: int| 0 <= i < self.entries@.len() && (#[trigger] self.entries@[i]).employer == e
    }

    /// The records of employer `e`, in batch-id order.
    pub open spec fn batches_of(self, e: Address) -> Seq<PayrollLock> {
        if self.has_employer(e) {
            self.entries@[self.emp_index(e)].batches@
        } else {
            Seq::<PayrollLock>::empty()
        }
    }

    /// The batch id the next successful lock for `e` will get: the number
    /// of batches locked for `e` so far.
    pub open spec fn next_batch_id(self, e: Address) -> int {
        self.batches_of(e).len() as int
    }

    /// The record at `(e, b)`, if one was ever created.
    pub open spec fn lock_of(self, e: Address, b: u64) -> Option<PayrollLock> {
        if b < self.batches_of(e).len() {
            Some(self.batches_of(e)[b as int])
        } else {
            None
        }
    }

    /// The ledger invariant: unique slots, well-formed owned records, and
    /// no record before initialization.
    pub open spec fn wf(self) -> bool {
        &&& self.emp_unique()
        &&& forall|i: int| 0 <= i < self.entries@.len() ==> (#[trigger] self.entries@[i]).wf()
        &&& (!self.initialized() ==> self.entries@.len() == 0)
    }

    /// With unique slots, the slot holding employer `e` is the one `choose`
    /// picks.
    proof fn lemma_emp_index_is(self, e: Address, i: int)
        requires
            self.emp_unique(),
            0 <= i < self.entries@.len(),
            self.entries@[i].employer == e,
        ensures
            self.has_employer(e),
            self.emp_index(e) == i,
    {
        assert(self.has_employer(e));
        let j = self.emp_index(e);
        assert(0 <= j < self.entries@.len() && self.entries@[j].employer == e);
        if i != j {
            assert(self.entries@[i].employer != self.entries@[j].employer);
        }
    }

    /// Two states with the same slots read the same everywhere, whatever
    /// their configuration or event log.
    proof fn lemma_same_entries(s: Self, t: Self)
        requires
            s.emp_unique(),
            t.entries == s.entries,
        ensures
            t.emp_unique(),
            forall|k: int| 0 <= k < t.entries@.len() ==> #[trigger] t.entries@[k] == s.entries@[k],
            forall|e: Address| #[trigger] t.has_employer(e) == s.has_employer(e),
            forall|e: Address| #[trigger] t.batches_of(e) == s.batches_of(e),
            forall|e: Address| #[trigger] t.next_batch_id(e) == s.next_batch_id(e),
            forall|e: Address, b: u64| #[trigger] t.lock_of(e, b) == s.lock_of(e, b),
    {
        assert(t.entries@ == s.entries@);
        assert forall|e: Address| #[trigger] t.has_employer(e) == s.has_employer(e) by {
            if s.has_employer(e) {
                let j = s.emp_index(e);
                assert(t.entries@[j].employer == e);
            }
            if t.has_employer(e) {
                let j = t.emp_index(e);
                assert(s.entries@[j].employer == e);
            }
        }
        assert forall|e: Address| #[trigger] t.batches_of(e) == s.batches_of(e) by {
            if s.has_employer(e) {
                let j = s.emp_index(e);
                s.lemma_emp_index_is(e, j);
                assert(t.entries@[j].employer == e);
                t.lemma_emp_index_is(e, j);
            }
        }
        assert forall|e: Address, b: u64| #[trigger] t.lock_of(e, b) == s.lock_of(e, b) by {
            assert(t.batches_of(e) == s.batches_of(e));
        }
    }

    /// A state whose slot `i` was replaced by one with the same employer
    /// keeps every other employer's view of the ledger intact.
    proof fn lemma_entry_updated(s: Self, t: Self, i: int)
        requires
            s.emp_unique(),
            0 <= i < s.entries@.len(),
            t.entries@.len() == s.entries@.len(),
            forall|k: int|
                0 <= k < s.entries@.len() ==> (#[trigger] t.entries@[k]).employer
                    == s.entries@[k].employer,
            forall|k: int|
                0 <= k < s.entries@.len() && k != i ==> (#[trigger] t.entries@[k]).batches
                    == s.entries@[k].batches,
        ensures
            t.emp_unique(),
            t.has_employer(s.entries@[i].employer),
            t.emp_index(s.entries@[i].employer) == i,
            forall|e: Address|
                e != s.entries@[i].employer ==> #[trigger] t.batches_of(e) == s.batches_of(e),
    {
        assert(t.emp_unique());
        t.lemma_emp_index_is(s.entries@[i].employer, i);
        assert forall|e: Address| e != s.entries@[i].employer implies #[trigger] t.batches_of(e)
            == s.batches_of(e) by {
            if s.has_employer(e) {
                let j = s.emp_index(e);
                assert(0 <= j < s.entries@.len() && s.entries@[j].employer == e);
                assert(t.entries@[j].employer == e);
                s.lemma_emp_index_is(e, j);
                t.lemma_emp_index_is(e, j);
                assert(j != i);
            } else {
                if t.has_employer(e) {
                    let j = t.emp_index(e);
                    assert(s.entries@[j].employer == e);
                }
            }
        }
    }

    /// Appending a slot for a new employer leaves every existing employer's
    /// view of the ledger intact.
    proof fn lemma_entry_pushed(s: Self, t: Self, ent: EmployerBatches)
        requires
            s.emp_unique(),
            !s.has_employer(ent.employer),
            t.entries@ == s.entries@.push(ent),
        ensures
            t.emp_unique(),
            t.has_employer(ent.employer),
            t.emp_index(ent.employer) == s.entries@.len(),
            t.batches_of(ent.employer) == ent.batches@,
            forall|e: Address|
                e != ent.employer ==> #[trigger] t.batches_of(e) == s.batches_of(e)
                    && t.has_employer(e) == s.has_employer(e),
    {
        let n = s.entries@.len() as int;
        assert forall|i: int, j: int|
            #![trigger t.entries@[i], t.entries@[j]]
            0 <= i < j < t.entries@.len() implies t.entries@[i].employer
            != t.entries@[j].employer by {
            if j < n {
                assert(s.entries@[i].employer != s.entries@[j].employer);
            } else {
                assert(t.entries@[j].employer == ent.employer);
                assert(t.entries@[i] == s.entries@[i]);
            }
        }
        assert(t.entries@[n].employer == ent.employer);
        t.lemma_emp_index_is(ent.employer, n);
        assert(t.batches_of(ent.employer) == ent.batches@);
        assert forall|e: Address| e != ent.employer implies #[trigger] t.batches_of(e)
            == s.batches_of(e) && t.has_employer(e) == s.has_employer(e) by {
            if s.has_employer(e) {
                let j = s.emp_index(e);
                assert(0 <= j < n && s.entries@[j].employer == e);
                assert(t.entries@[j].employer == e);
                s.lemma_emp_index_is(e, j);
                t.lemma_emp_index_is(e, j);
            } else {
                if t.has_employer(e) {
                    let j = t.emp_index(e);
                    assert(0 <= j < n + 1 && t.entries@[j].employer == e);
                    assert(j < n ==> s.entries@[j].employer == e);
                }
            }
        }
    }

    /// An empty, unconfigured ledger: no employer has a record and the next
    /// batch id of every employer is 0.
    pub fn new() -> (s: Self)
        ensures
            s.wf(),
            !s.initialized(),
            forall|e: Address| #[trigger] s.next_batch_id(e) == 0,
            forall|e: Address, b: u64| #[trigger] s.lock_of(e, b) is None,
            s.events@ == Seq::<Event>::empty(),
    {
        let s = PayrollYieldContract { config: None, entries: Vec::new(), events: Vec::new() };
        proof {
            assert forall|e: Address| #[trigger] s.next_batch_id(e) == 0 by {
                assert(!s.has_employer(e));
            }
            assert forall|e: Address, b: u64| #[trigger] s.lock_of(e, b) is None by {
                assert(!s.has_employer(e));
            }
        }
        s
    }

    /// One-time configuration of the vault and token addresses; refused
    /// with `AlreadyInitialized` on every later call, which changes nothing.
    pub fn initialize(&mut self, defindex_pool: Address, token: Address) -> (r: Result<(), Error>)
        requires
            old(self).wf(),
        ensures
            final(self).wf(),
            old(self).initialized() ==> r == Err::<(), Error>(Error::AlreadyInitialized)
                && *final(self) == *old(self),
            !old(self).initialized() ==> r == Ok::<(), Error>(())
                && final(self).config == Some(Config { defindex_pool, token })
                && final(self).entries == old(self).entries
                && final(self).events == old(self).events,
    {
        if self.config.is_some() {
            return Err(Error::AlreadyInitialized);
        }
        self.config = Some(Config { defindex_pool, token });
        Ok(())
    }

    /// Finds the slot of employer `e`, if any.
    fn find_employer(&self, e: Address) -> (r: Option<usize>)
        requires
            self.emp_unique(),
        ensures
            match r {
                Some(i) => self.has_employer(e) && self.emp_index(e) == i && i
                    < self.entries@.len() && self.entries@[i as int].employer == e,
                None => !self.has_employer(e),
            },
    {
        let n = self.entries.len();
        let mut i: usize = 0;
        while i < n
            invariant
                i <= n,
                n == self.entries@.len(),
                self.emp_unique(),
                forall|k: int| 0 <= k < i ==> (#[trigger] self.entries@[k]).employer != e,
            decreases n - i,
        {
            if self.entries[i].employer == e {
                proof {
                    self.lemma_emp_index_is(e, i as int);
                }
                return Some(i);
            }
            i += 1;
        }
        None
    }

    /// Read-only status of the record at `(employer, batch_id)`: the full
    /// record, or `NotInitialized` when no such record was ever created.
    pub fn get_status(&self, employer: Address, batch_id: u64) -> (r: Result<PayrollLock, Error>)
        requires
            self.wf(),
        ensures
            r == match self.lock_of(employer, batch_id) {
                Some(l) => Ok::<PayrollLock, Error>(l),
                None => Err::<PayrollLock, Error>(Error::NotInitialized),
            },
    {
        match self.find_employer(employer) {
            None => Err(Error::NotInitialized),
            Some(i) => {
                let slot = &self.entries[i];
                if batch_id < slot.batches.len() as u64 {
                    Ok(slot.batches[batch_id as usize])
                } else {
                    Err(Error::NotInitialized)
                }
            },
        }
    }

    /// Read-only simple-interest projection for the record at
    /// `(employer, batch_id)` as of `now`, with checked arithmetic; the
    /// state is never touched. The clock is monotone, so `now` is never
    /// before the record's lock date.
    pub fn calculate_current_yield(&self, employer: Address, batch_id: u64, now: u64) -> (r: Result<
        i128,
        Error,
    >)
        requires
            self.wf(),
            self.lock_of(employer, batch_id) matches Some(l) ==> now >= l.lock_date,
        ensures
            r == match self.lock_of(employer, batch_id) {
                None => Err::<i128, Error>(Error::NotInitialized),
                Some(l) => {
                    let days = days_elapsed(l.lock_date, now);
                    if interest_overflows(l.total_amount as int, days) {
                        Err::<i128, Error>(Error::InsufficientFunds)
                    } else {
                        Ok::<i128, Error>(simple_interest(l.total_amount as int, days) as i128)
                    }
                },
            },
    {
        let l = match self.get_status(employer, batch_id) {
            Ok(l) => l,
            Err(e) => {
                return Err(e);
            },
        };
        compute_simple_interest(l.total_amount, l.lock_date, now)
    }

    /// Replaces the record at position `b` of slot `i` with `l2`, which must
    /// belong to the slot's employer; everything else stays as it was.
    fn set_batch(&mut self, i: usize, b: usize, l2: PayrollLock)
        requires
            old(self).wf(),
            i < old(self).entries@.len(),
            b < old(self).entries@[i as int].batches@.len(),
            l2.wf(),
            l2.employer == old(self).entries@[i as int].employer,
        ensures
            final(self).wf(),
            final(self).entries@.len() == old(self).entries@.len(),
            forall|k: int|
                0 <= k < old(self).entries@.len() ==> (#[trigger] final(self).entries@[k]).employer
                    == old(self).entries@[k].employer,
            forall|k: int|
                0 <= k < old(self).entries@.len() && k != i ==> (#[trigger] final(self).entries@[k]).batches == old(self).entries@[k].batches,
            final(self).entries@[i as int].batches@ == old(self).entries@[i as int].batches@.update(
                b as int,
                l2,
            ),
            final(self).config == old(self).config,
            final(self).events == old(self).events,
    {
        let ghost pre = *self;
        let mut slot = self.entries.remove(i);
        slot.batches[b] = l2;
        let ghost slot_after = slot;
        self.entries.insert(i, slot);
        proof {
            lemma_remove_insert_is_update(pre.entries@, i as int, slot_after);
            assert(self.entries@ =~= pre.entries@.update(i as int, slot_after));
            assert(self.entries@[i as int].wf());
            assert(self.wf());
        }
    }

    /// Locks `total_amount` for `employer` until `payout_date`, recording
    /// the vault shares the deposit minted. `now` is the trusted ledger
    /// time, `authorized` whether the call carries an authorization proof
    /// from `employer`, and `vault_shares` what the vault returned for the
    /// deposit (0 when no vault is integrated). Guards, in order:
    /// authorization, non-negative amount, payout date strictly in the
    /// future, configured ledger; a guard failure reports its error and
    /// leaves the ledger untouched. On success the returned batch id equals
    /// the number of batches `employer` locked before, a fresh unreleased
    /// record is created under it, and a `Locked` event is appended; no
    /// other record, of this employer or any other, changes.
    pub fn lock_payroll(
        &mut self,
        employer: Address,
        total_amount: i128,
        payout_date: u64,
        now: u64,
        authorized: bool,
        vault_shares: i128,
    ) -> (r: Result<u64, Error>)
        requires
            old(self).wf(),
        ensures
            final(self).wf(),
            match lock_check(total_amount, payout_date, now, authorized, old(self).initialized()) {
                Err(e) => r == Err::<u64, Error>(e) && *final(self) == *old(self),
                Ok(()) => {
                    let b = old(self).next_batch_id(employer) as u64;
                    &&& r == Ok::<u64, Error>(b)
                    &&& final(self).next_batch_id(employer) == old(self).next_batch_id(employer)
                        + 1
                    &&& final(self).lock_of(employer, b) == Some(
                        fresh_lock(employer, total_amount, vault_shares, now, payout_date),
                    )
                    &&& forall|b2: u64|
                        b2 != b ==> #[trigger] final(self).lock_of(employer, b2) == old(self).lock_of(employer, b2)
                    &&& forall|e2: Address|
                        e2 != employer ==> #[trigger] final(self).batches_of(e2) == old(self).batches_of(e2)
                    &&& final(self).config == old(self).config
                    &&& final(self).events@ == old(self).events@.push(
                        Event::Locked { employer, batch_id: b },
                    )
                },
            },
    {
        match check_lock(total_amount, payout_date, now, authorized, self.config.is_some()) {
            Err(e) => {
                return Err(e);
            },
            Ok(()) => {},
        }
        let lk = new_lock(employer, total_amount, vault_shares, now, payout_date);
        match self.find_employer(employer) {
            Some(i) => {
                let ghost pre = *self;
                let mut slot = self.entries.remove(i);
                let batch_id: u64 = slot.batches.len() as u64;
                slot.batches.push(lk);
                let ghost slot_after = slot;
                self.entries.insert(i, slot);
                let ghost mid = *self;
                self.events.push(Event::Locked { employer, batch_id });
                proof {
                    lemma_remove_insert_is_update(pre.entries@, i as int, slot_after);
                    assert(mid.entries@ =~= pre.entries@.update(i as int, slot_after));
                    assert(slot_after.wf());
                    Self::lemma_entry_updated(pre, mid, i as int);
                    assert(mid.batches_of(employer) == pre.batches_of(employer).push(lk));
                    Self::lemma_same_entries(mid, *self);
                    assert(self.batches_of(employer) == pre.batches_of(employer).push(lk));
                    assert forall|b2: u64|
                        b2 != batch_id implies #[trigger] self.lock_of(employer, b2) == pre.lock_of(
                        employer,
                        b2,
                    ) by {
                        assert(self.batches_of(employer) == pre.batches_of(employer).push(lk));
                    }
                    assert forall|e2: Address|
                        e2 != employer implies #[trigger] self.batches_of(e2) == pre.batches_of(
                        e2,
                    ) by {
                        assert(mid.batches_of(e2) == pre.batches_of(e2));
                    }
                    assert forall|k: int|
                        0 <= k < self.entries@.len() implies (#[trigger] self.entries@[k]).wf() by {
                        assert(self.entries@[k] == mid.entries@[k]);
                    }
                    assert(self.wf());
                }
                Ok(batch_id)
            },
            None => {
                let ghost pre = *self;
                let mut batches: Vec<PayrollLock> = Vec::new();
                batches.push(lk);
                let ent = EmployerBatches { employer, batches };
                let ghost ent_g = ent;
                self.entries.push(ent);
                let ghost mid = *self;
                self.events.push(Event::Locked { employer, batch_id: 0 });
                proof {
                    assert(ent_g.wf());
                    Self::lemma_entry_pushed(pre, mid, ent_g);
                    assert(pre.next_batch_id(employer) == 0);
                    assert(mid.batches_of(employer).len() == 1);
                    Self::lemma_same_entries(mid, *self);
                    assert(self.batches_of(employer) == ent_g.batches@);
                    assert forall|b2: u64|
                        b2 != 0 implies #[trigger] self.lock_of(employer, b2) == pre.lock_of(
                        employer,
                        b2,
                    ) by {
                        assert(!pre.has_employer(employer));
                    }
                    assert forall|e2: Address|
                        e2 != employer implies #[trigger] self.batches_of(e2) == pre.batches_of(
                        e2,
                    ) by {
                        assert(mid.batches_of(e2) == pre.batches_of(e2));
                    }
                    assert forall|k: int|
                        0 <= k < self.entries@.len() implies (#[trigger] self.entries@[k]).wf() by {
                        assert(self.entries@[k] == mid.entries@[k]);
                        if k < pre.entries@.len() {
                            assert(mid.entries@[k] == pre.entries@[k]);
                        } else {
                            assert(mid.entries@[k] == ent_g);
                        }
                    }
                    assert(self.wf());
                }
                Ok(0u64)
            },
        }
    }

    /// Checks whether the record at `(employer, batch_id)` is ready for
    /// release as of `now`, without touching anything; on success it
    /// returns the vault shares a caller must withdraw before committing
    /// the release.
    pub fn can_release(&self, employer: Address, batch_id: u64, now: u64) -> (r: Result<
        i128,
        Error,
    >)
        requires
            self.wf(),
        ensures
            r == match self.lock_of(employer, batch_id) {
                None => Err::<i128, Error>(Error::NotInitialized),
                Some(l) => if now < l.payout_date {
                    Err::<i128, Error>(Error::PayoutDateNotReached)
                } else if l.funds_released {
                    Err::<i128, Error>(Error::AlreadyReleased)
                } else {
                    Ok::<i128, Error>(l.vault_shares)
                },
            },
    {
        let l = match self.get_status(employer, batch_id) {
            Ok(l) => l,
            Err(e) => {
                return Err(e);
            },
        };
        if now < l.payout_date {
            return Err(Error::PayoutDateNotReached);
        }
        if l.funds_released {
            return Err(Error::AlreadyReleased);
        }
        Ok(l.vault_shares)
    }

    /// Releases the principal of `(employer, batch_id)` to the disbursement
    /// wallet `sdp_wallet`. Anyone may trigger it: no authorization proof is
    /// demanded. `now` is the trusted ledger time and `total_withdrawn` what
    /// the vault withdrawal of the record's shares returned (ignored when no
    /// shares were minted: the simple-interest projection is realized
    /// instead). Guards, in order: the record exists, its payout date is
    /// reached, it was not released before; then the realized yield is
    /// written exactly once, the released flag set, a `Released` event
    /// appended, and the caller owes the record's principal to `sdp_wallet`.
    /// A failed guard — in particular any second release — reports its
    /// error and changes nothing.
    pub fn release_to_sdp(
        &mut self,
        employer: Address,
        batch_id: u64,
        sdp_wallet: Address,
        now: u64,
        total_withdrawn: i128,
    ) -> (r: Result<i128, Error>)
        requires
            old(self).wf(),
        ensures
            final(self).wf(),
            match old(self).lock_of(employer, batch_id) {
                None => r == Err::<i128, Error>(Error::NotInitialized) && *final(self) == *old(self),
                Some(l) => match release_step_spec(l, now, total_withdrawn) {
                    Err(e) => r == Err::<i128, Error>(e) && *final(self) == *old(self),
                    Ok((l2, y)) => {
                        &&& r == Ok::<i128, Error>(y)
                        &&& final(self).lock_of(employer, batch_id) == Some(l2)
                        &&& forall|e2: Address, b2: u64|
                            !(e2 == employer && b2 == batch_id) ==> #[trigger] final(self).lock_of(
                                e2,
                                b2,
                            ) == old(self).lock_of(e2, b2)
                        &&& forall|e2: Address| #[trigger]
                            final(self).next_batch_id(e2) == old(self).next_batch_id(e2)
                        &&& final(self).config == old(self).config
                        &&& final(self).events@ == old(self).events@.push(
                            Event::Released { employer, batch_id, yield_earned: y, sdp_wallet },
                        )
                    },
                },
            },
    {
        let i = match self.find_employer(employer) {
            Some(i) => i,
            None => {
                return Err(Error::NotInitialized);
            },
        };
        let slot = &self.entries[i];
        if !(batch_id < slot.batches.len() as u64) {
            return Err(Error::NotInitialized);
        }
        let b = batch_id as usize;
        let l = slot.batches[b];
        let (l2, y) = match release_step(&l, now, total_withdrawn) {
            Ok(p) => p,
            Err(e) => {
                return Err(e);
            },
        };
        let ghost pre = *self;
        self.set_batch(i, b, l2);
        let ghost mid = *self;
        self.events.push(Event::Released { employer, batch_id, yield_earned: y, sdp_wallet });
        proof {
            Self::lemma_release_claim_commit(pre, mid, *self, i as int, employer, batch_id, l2);
        }
        Ok(y)
    }

    /// Pays the accrued yield of `(employer, batch_id)` out to its
    /// employer. `authorized` is whether the call carries an authorization
    /// proof from `employer`. Guards, in order: the record exists, the call
    /// is authorized, the principal was released, the yield was not claimed
    /// before; then the claimed flag is set — the record's terminal
    /// transition — a `Yield` event is appended, and the caller owes the
    /// returned amount, exactly the recorded yield, to the employer. A
    /// failed guard — in particular any second claim — reports its error,
    /// changes nothing, and pays nothing.
    pub fn claim_yield(&mut self, employer: Address, batch_id: u64, authorized: bool) -> (r: Result<
        i128,
        Error,
    >)
        requires
            old(self).wf(),
        ensures
            final(self).wf(),
            match old(self).lock_of(employer, batch_id) {
                None => r == Err::<i128, Error>(Error::NotInitialized) && *final(self) == *old(self),
                Some(l) => match claim_step_spec(l, authorized) {
                    Err(e) => r == Err::<i128, Error>(e) && *final(self) == *old(self),
                    Ok((l2, y)) => {
                        &&& r == Ok::<i128, Error>(y)
                        &&& y == l.yield_earned
                        &&& final(self).lock_of(employer, batch_id) == Some(l2)
                        &&& forall|e2: Address, b2: u64|
                            !(e2 == employer && b2 == batch_id) ==> #[trigger] final(self).lock_of(
                                e2,
                                b2,
                            ) == old(self).lock_of(e2, b2)
                        &&& forall|e2: Address| #[trigger]
                            final(self).next_batch_id(e2) == old(self).next_batch_id(e2)
                        &&& final(self).config == old(self).config
                        &&& final(self).events@ == old(self).events@.push(
                            Event::Yield { employer, batch_id },
                        )
                    },
                },
            },
    {
        let i = match self.find_employer(employer) {
            Some(i) => i,
            None => {
                return Err(Error::NotInitialized);
            },
        };
        let slot = &self.entries[i];
        if !(batch_id < slot.batches.len() as u64) {
            return Err(Error::NotInitialized);
        }
        let b = batch_id as usize;
        let l = slot.batches[b];
        let (l2, y) = match claim_step(&l, authorized) {
            Ok(p) => p,
            Err(e) => {
                return Err(e);
            },
        };
        let ghost pre = *self;
        self.set_batch(i, b, l2);
        let ghost mid = *self;
        self.events.push(Event::Yield { employer, batch_id });
        proof {
            Self::lemma_release_claim_commit(pre, mid, *self, i as int, employer, batch_id, l2);
        }
        Ok(y)
    }

    /// The shared commit argument of `release_to_sdp` and `claim_yield`:
    /// `mid` replaced the record `batch_id` of slot `i` by `l2` and kept
    /// everything else (the shape `set_batch` guarantees), `t` then only
    /// appended an event; so `t` is well formed, reads `l2` at the updated
    /// address, and reads as `pre` everywhere else.
    proof fn lemma_release_claim_commit(
        pre: Self,
        mid: Self,
        t: Self,
        i: int,
        employer: Address,
        batch_id: u64,
        l2: PayrollLock,
    )
        requires
            pre.wf(),
            0 <= i < pre.entries@.len(),
            pre.entries@[i].employer == employer,
            batch_id < pre.entries@[i].batches@.len(),
            mid.wf(),
            mid.entries@.len() == pre.entries@.len(),
            forall|k: int|
                0 <= k < pre.entries@.len() ==> (#[trigger] mid.entries@[k]).employer
                    == pre.entries@[k].employer,
            forall|k: int|
                0 <= k < pre.entries@.len() && k != i ==> (#[trigger] mid.entries@[k]).batches
                    == pre.entries@[k].batches,
            mid.entries@[i].batches@ == pre.entries@[i].batches@.update(batch_id as int, l2),
            t.entries == mid.entries,
            t.config == mid.config,
            mid.config == pre.config,
        ensures
            t.wf(),
            t.lock_of(employer, batch_id) == Some(l2),
            forall|e2: Address, b2: u64|
                !(e2 == employer && b2 == batch_id) ==> #[trigger] t.lock_of(e2, b2) == pre.lock_of(
                    e2,
                    b2,
                ),
            forall|e2: Address| #[trigger] t.next_batch_id(e2) == pre.next_batch_id(e2),
    {
        pre.lemma_emp_index_is(employer, i);
        Self::lemma_entry_updated(pre, mid, i);
        assert(mid.batches_of(employer) == pre.batches_of(employer).update(batch_id as int, l2));
        Self::lemma_same_entries(mid, t);
        assert forall|k: int| 0 <= k < t.entries@.len() implies (#[trigger] t.entries@[k]).wf() by {
            assert(t.entries@[k] == mid.entries@[k]);
        }
        assert(t.wf());
        assert(t.batches_of(employer) == pre.batches_of(employer).update(batch_id as int, l2));
        assert forall|e2: Address, b2: u64|
            !(e2 == employer && b2 == batch_id) implies #[trigger] t.lock_of(e2, b2) == pre.lock_of(
            e2,
            b2,
        ) by {
            if e2 != employer {
                assert(mid.batches_of(e2) == pre.batches_of(e2));
                assert(t.batches_of(e2) == mid.batches_of(e2));
            }
        }
        assert forall|e2: Address| #[trigger] t.next_batch_id(e2) == pre.next_batch_id(e2) by {
            if e2 != employer {
                assert(mid.batches_of(e2) == pre.batches_of(e2));
                assert(t.batches_of(e2) == mid.batches_of(e2));
            }
        }
    }
}

} // verus!

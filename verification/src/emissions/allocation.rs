//! A grant of tokens to one account.
//!
//! An allocation fixes a total amount, counts what has been withdrawn, and
//! carries a vest schedule and, optionally, an unlock schedule. What can be
//! withdrawn at a moment is the smaller of the vested and the unlocked
//! amount, less what was withdrawn before, and never less than nothing.

use crate::emissions::error::{ContractError, InvalidReason};
use crate::emissions::schedule::Schedule;
use vstd::prelude::*;

verus! {

/// The grant of one account.
#[derive(Clone, Copy, Debug, PartialEq, Eq)]
pub struct AllocationInfo {
    /// How much was granted. Fixed at creation.
    pub total_amount: u128,
    /// How much has been withdrawn so far.
    pub withdrawn_amount: u128,
    /// The curve along which ownership accrues.
    pub vest_schedule: Schedule,
    /// The curve along which vested tokens become withdrawable. Without one
    /// nothing but vesting holds tokens back.
    pub unlock_schedule: Option<Schedule>,
}

/// The figures of an allocation at one moment.
#[derive(Clone, Copy, Debug, PartialEq, Eq, Structural)]
pub struct SimulateWithdrawResponse {
    /// What the unlock schedule still holds back: total less unlocked.
    pub total_whale_locked: u128,
    /// What the unlock schedule has released.
    pub total_whale_unlocked: u128,
    /// What the vest schedule has released.
    pub total_whale_vested: u128,
    /// What has been withdrawn so far.
    pub withdrawn_amount: u128,
    /// What a withdrawal at this moment would pay.
    pub withdrawable_amount: u128,
}

/// What ending a grant early pays out.
#[derive(Clone, Copy, Debug, PartialEq, Eq, Structural)]
pub struct Settlement {
    /// Vested and not yet withdrawn: owed to the holder.
    pub payable: u128,
    /// Not vested: returned to the refund recipient.
    pub refund: u128,
}

impl AllocationInfo {
    /// Whether the unlock schedule, if there is one, starts no later than the
    /// vest schedule.
    pub open spec fn schedules_ordered(self) -> bool {
        match self.unlock_schedule {
            Some(unlock) => unlock.start_time <= self.vest_schedule.start_time,
            None => true,
        }
    }

    /// A well-formed allocation has ordered schedules and has not paid out
    /// more than it holds.
    pub open spec fn wf(self) -> bool {
        self.schedules_ordered() && self.withdrawn_amount <= self.total_amount
    }

    /// What is wrong with the allocation, if anything: the order of the
    /// schedules is examined first.
    pub open spec fn spec_validate(self) -> Result<(), InvalidReason> {
        if !self.schedules_ordered() {
            Err(InvalidReason::UnlockStartsAfterVest)
        } else if self.withdrawn_amount > self.total_amount {
            Err(InvalidReason::WithdrawnExceedsTotal)
        } else {
            Ok(())
        }
    }

    /// The fresh allocation with these terms, or the reason for which there
    /// is none.
    pub open spec fn spec_new(
        total_amount: u128,
        vest_schedule: Schedule,
        unlock_schedule: Option<Schedule>,
    ) -> Result<AllocationInfo, InvalidReason> {
        let allocation = AllocationInfo {
            total_amount,
            withdrawn_amount: 0,
            vest_schedule,
            unlock_schedule,
        };
        match allocation.spec_validate() {
            Ok(_) => Ok(allocation),
            Err(reason) => Err(reason),
        }
    }

    /// The amount vested at `now`.
    pub open spec fn spec_vested(self, now: int) -> int {
        self.vest_schedule.spec_amount_unlocked(self.total_amount as int, now)
    }

    /// The amount unlocked at `now`; all of it where there is no unlock
    /// schedule.
    pub open spec fn spec_unlocked(self, now: int) -> int {
        match self.unlock_schedule {
            Some(unlock) => unlock.spec_amount_unlocked(self.total_amount as int, now),
            None => self.total_amount as int,
        }
    }

    /// The amount that is both vested and unlocked at `now`.
    pub open spec fn spec_released(self, now: int) -> int {
        if self.spec_vested(now) <= self.spec_unlocked(now) {
            self.spec_vested(now)
        } else {
            self.spec_unlocked(now)
        }
    }

    /// The amount that can be withdrawn at `now`: released less withdrawn,
    /// and nothing where that would be negative.
    pub open spec fn spec_withdrawable(self, now: int) -> int {
        if self.spec_released(now) >= self.withdrawn_amount {
            self.spec_released(now) - self.withdrawn_amount
        } else {
            0
        }
    }

    /// The figures of the allocation at `now`.
    pub open spec fn spec_simulate(self, now: int) -> SimulateWithdrawResponse {
        SimulateWithdrawResponse {
            total_whale_locked: (self.total_amount - self.spec_unlocked(now)) as u128,
            total_whale_unlocked: self.spec_unlocked(now) as u128,
            total_whale_vested: self.spec_vested(now) as u128,
            withdrawn_amount: self.withdrawn_amount,
            withdrawable_amount: self.spec_withdrawable(now) as u128,
        }
    }

    /// The allocation after `amount` more has been withdrawn.
    pub open spec fn spec_after_withdrawal(self, amount: int) -> AllocationInfo {
        AllocationInfo { withdrawn_amount: (self.withdrawn_amount + amount) as u128, ..self }
    }

    /// What a withdrawal at `now` does: it is refused before the end of the
    /// vesting cliff, and where nothing is withdrawable; otherwise it pays
    /// the withdrawable amount.
    pub open spec fn spec_withdraw(self, now: int) -> Result<u128, ContractError> {
        if self.vest_schedule.spec_before_cliff(now) {
            Err(ContractError::TooEarly)
        } else if self.spec_withdrawable(now) == 0 {
            Err(ContractError::NothingToWithdraw)
        } else {
            Ok(self.spec_withdrawable(now) as u128)
        }
    }

    /// What is vested at `now` and not yet withdrawn.
    pub open spec fn spec_payable(self, now: int) -> int {
        if self.spec_vested(now) >= self.withdrawn_amount {
            self.spec_vested(now) - self.withdrawn_amount
        } else {
            0
        }
    }

    /// What is not vested at `now`.
    pub open spec fn spec_unvested(self, now: int) -> int {
        self.total_amount - self.spec_vested(now)
    }

    /// What ending the grant at `now` pays out; refused where nothing is
    /// payable and nothing is unvested.
    pub open spec fn spec_settle(self, now: int) -> Result<Settlement, ContractError> {
        if self.spec_unvested(now) == 0 && self.spec_payable(now) == 0 {
            Err(ContractError::NoTokensToRefund)
        } else {
            Ok(
                Settlement {
                    payable: self.spec_payable(now) as u128,
                    refund: self.spec_unvested(now) as u128,
                },
            )
        }
    }

    /// A fresh allocation, of which nothing has been withdrawn. Refused where
    /// the unlock schedule starts after the vest schedule.
    pub fn new(total_amount: u128, vest_schedule: Schedule, unlock_schedule: Option<Schedule>) -> (r:
        Result<AllocationInfo, InvalidReason>)
        ensures
            r == Self::spec_new(total_amount, vest_schedule, unlock_schedule),
            r is Ok ==> r->Ok_0.wf(),
    {
        let allocation = AllocationInfo {
            total_amount,
            withdrawn_amount: 0,
            vest_schedule,
            unlock_schedule,
        };
        match allocation.validate() {
            Ok(()) => Ok(allocation),
            Err(reason) => Err(reason),
        }
    }

    /// Examines the allocation: `Ok` exactly when it is well formed,
    /// otherwise the first reason for which it is not.
    pub fn validate(&self) -> (r: Result<(), InvalidReason>)
        ensures
            r == self.spec_validate(),
            r is Ok <==> self.wf(),
    {
        let ordered = match self.unlock_schedule {
            Some(unlock) => unlock.start_time <= self.vest_schedule.start_time,
            None => true,
        };
        if !ordered {
            Err(InvalidReason::UnlockStartsAfterVest)
        } else if self.withdrawn_amount > self.total_amount {
            Err(InvalidReason::WithdrawnExceedsTotal)
        } else {
            Ok(())
        }
    }

    /// The amount vested at `now`.
    pub fn vested_amount(&self, now: u64) -> (r: u128)
        ensures
            r == self.spec_vested(now as int),
            r <= self.total_amount,
    {
        self.vest_schedule.amount_unlocked(self.total_amount, now)
    }

    /// The amount unlocked at `now`; the whole total where there is no unlock
    /// schedule.
    pub fn unlocked_amount(&self, now: u64) -> (r: u128)
        ensures
            r == self.spec_unlocked(now as int),
            r <= self.total_amount,
    {
        match self.unlock_schedule {
            Some(unlock) => unlock.amount_unlocked(self.total_amount, now),
            None => self.total_amount,
        }
    }

    /// The amount that a withdrawal at `now` would pay: the smaller of vested
    /// and unlocked, less what was withdrawn, floored at nothing.
    pub fn withdrawable_amount(&self, now: u64) -> (r: u128)
        ensures
            r == self.spec_withdrawable(now as int),
            self.withdrawn_amount + r <= u128::MAX,
            self.wf() ==> self.withdrawn_amount + r <= self.total_amount,
    {
        let vested = self.vested_amount(now);
        let unlocked = self.unlocked_amount(now);
        let released = if vested <= unlocked {
            vested
        } else {
            unlocked
        };
        if released >= self.withdrawn_amount {
            released - self.withdrawn_amount
        } else {
            0
        }
    }

    /// The figures of the allocation at `now`, computed as a withdrawal
    /// would compute them, with nothing changed.
    pub fn simulate(&self, now: u64) -> (r: SimulateWithdrawResponse)
        ensures
            r == self.spec_simulate(now as int),
            r.total_whale_locked + r.total_whale_unlocked == self.total_amount,
    {
        let unlocked = self.unlocked_amount(now);
        SimulateWithdrawResponse {
            total_whale_locked: self.total_amount - unlocked,
            total_whale_unlocked: unlocked,
            total_whale_vested: self.vested_amount(now),
            withdrawn_amount: self.withdrawn_amount,
            withdrawable_amount: self.withdrawable_amount(now),
        }
    }

    /// Adds `amount` to what has been withdrawn. The caller sees to it that
    /// the total is not exceeded.
    pub fn record_withdrawal(&mut self, amount: u128)
        requires
            old(self).withdrawn_amount + amount <= old(self).total_amount,
        ensures
            *final(self) == old(self).spec_after_withdrawal(amount as int),
            old(self).wf() ==> final(self).wf(),
    {
        self.withdrawn_amount = self.withdrawn_amount + amount;
    }

    /// Withdraws what can be withdrawn at `now` and returns the amount.
    /// Refused with `TooEarly` before the end of the vesting cliff and with
    /// `NothingToWithdraw` where the amount would be zero; the allocation is
    /// then unchanged.
    pub fn withdraw(&mut self, now: u64) -> (r: Result<u128, ContractError>)
        requires
            old(self).wf(),
        ensures
            r == old(self).spec_withdraw(now as int),
            final(self).wf(),
            match r {
                Ok(amount) => *final(self) == old(self).spec_after_withdrawal(amount as int)
                    && amount > 0 && final(self).withdrawn_amount == old(self).withdrawn_amount
                    + amount,
                Err(_) => *final(self) == *old(self),
            },
    {
        if self.vest_schedule.before_cliff(now) {
            return Err(ContractError::TooEarly);
        }
        let amount = self.withdrawable_amount(now);
        if amount == 0 {
            return Err(ContractError::NothingToWithdraw);
        }
        self.record_withdrawal(amount);
        Ok(amount)
    }

    /// What ending the grant at `now` pays out: to the holder what is vested
    /// and not yet withdrawn, to the refund recipient what is not vested.
    /// Refused with `NoTokensToRefund` where both are zero.
    pub fn settle(&self, now: u64) -> (r: Result<Settlement, ContractError>)
        ensures
            r == self.spec_settle(now as int),
            r is Ok && self.withdrawn_amount <= self.spec_vested(now as int) ==> r->Ok_0.payable
                + r->Ok_0.refund + self.withdrawn_amount == self.total_amount,
    {
        let vested = self.vested_amount(now);
        let payable = if vested >= self.withdrawn_amount {
            vested - self.withdrawn_amount
        } else {
            0
        };
        let refund = self.total_amount - vested;
        if refund == 0 && payable == 0 {
            Err(ContractError::NoTokensToRefund)
        } else {
            Ok(Settlement { payable, refund })
        }
    }

    /// The allocation after a withdrawal at each of `times` in turn. A
    /// withdrawal that is refused changes nothing.
    pub open spec fn spec_after_withdrawals(self, times: Seq<int>) -> AllocationInfo
        decreases times.len(),
    {
        if times.len() == 0 {
            self
        } else {
            let before = self.spec_after_withdrawals(times.drop_last());
            match before.spec_withdraw(times.last()) {
                Ok(amount) => before.spec_after_withdrawal(amount as int),
                Err(_) => before,
            }
        }
    }

    /// The sum of what the withdrawals at `times` pay, one after the other.
    pub open spec fn spec_paid_by_withdrawals(self, times: Seq<int>) -> int
        decreases times.len(),
    {
        if times.len() == 0 {
            0
        } else {
            let before = self.spec_after_withdrawals(times.drop_last());
            let paid = self.spec_paid_by_withdrawals(times.drop_last());
            match before.spec_withdraw(times.last()) {
                Ok(amount) => paid + amount,
                Err(_) => paid,
            }
        }
    }

    /// Vested, unlocked and withdrawable amounts are never negative and never
    /// exceed the total; a well-formed allocation cannot withdraw more than
    /// it has left.
    pub proof fn lemma_amounts_are_bounded(self, now: int)
        ensures
            0 <= self.spec_vested(now) <= self.total_amount,
            0 <= self.spec_unlocked(now) <= self.total_amount,
            0 <= self.spec_released(now) <= self.total_amount,
            0 <= self.spec_withdrawable(now) <= self.total_amount,
            self.wf() ==> self.withdrawn_amount + self.spec_withdrawable(now)
                <= self.total_amount,
    {
        self.vest_schedule.lemma_unlocked_is_bounded(self.total_amount as int, now);
        if let Some(unlock) = self.unlock_schedule {
            unlock.lemma_unlocked_is_bounded(self.total_amount as int, now);
        }
    }

    /// Without an unlock schedule only vesting holds tokens back: what can
    /// be withdrawn is what is vested, less what was withdrawn.
    pub proof fn lemma_withdrawable_without_unlock_schedule(self, now: int)
        requires
            self.unlock_schedule is None,
            self.withdrawn_amount <= self.spec_vested(now),
        ensures
            self.spec_withdrawable(now) == self.spec_vested(now) - self.withdrawn_amount,
    {
        self.lemma_amounts_are_bounded(now);
    }

    /// A withdrawal pays exactly what a simulation at the same moment shows
    /// as withdrawable, and raises the withdrawn amount by exactly that.
    pub proof fn lemma_withdrawal_pays_what_simulation_shows(self, now: int)
        requires
            self.wf(),
            self.spec_withdraw(now) is Ok,
        ensures
            self.spec_withdraw(now)->Ok_0 == self.spec_simulate(now).withdrawable_amount,
            self.spec_after_withdrawal(self.spec_withdraw(now)->Ok_0 as int).withdrawn_amount
                == self.withdrawn_amount + self.spec_simulate(now).withdrawable_amount,
            self.spec_after_withdrawal(self.spec_withdraw(now)->Ok_0 as int).wf(),
    {
        self.lemma_amounts_are_bounded(now);
    }

    /// Right after a withdrawal nothing is left to withdraw: a second
    /// withdrawal at the same moment is refused with `NothingToWithdraw`.
    pub proof fn lemma_second_withdrawal_is_refused(self, now: int)
        requires
            self.wf(),
            self.spec_withdraw(now) is Ok,
        ensures
            self.spec_after_withdrawal(self.spec_withdraw(now)->Ok_0 as int).spec_withdraw(now)
                == Err::<u128, ContractError>(ContractError::NothingToWithdraw),
    {
        self.lemma_amounts_are_bounded(now);
        let after = self.spec_after_withdrawal(self.spec_withdraw(now)->Ok_0 as int);
        assert(after.spec_released(now) == self.spec_released(now));
        assert(after.withdrawn_amount == self.spec_released(now));
    }

    /// Conservation: after any number of withdrawals the withdrawn amount
    /// has grown by exactly the sum of what they paid, the total is what it
    /// was, and the allocation is still well formed.
    pub proof fn lemma_withdrawals_are_conserved(self, times: Seq<int>)
        requires
            self.wf(),
        ensures
            self.spec_after_withdrawals(times).wf(),
            self.spec_after_withdrawals(times).total_amount == self.total_amount,
            self.spec_after_withdrawals(times).vest_schedule == self.vest_schedule,
            self.spec_after_withdrawals(times).unlock_schedule == self.unlock_schedule,
            self.spec_after_withdrawals(times).withdrawn_amount == self.withdrawn_amount
                + self.spec_paid_by_withdrawals(times),
            0 <= self.spec_paid_by_withdrawals(times),
        decreases times.len(),
    {
        if times.len() > 0 {
            self.lemma_withdrawals_are_conserved(times.drop_last());
            let before = self.spec_after_withdrawals(times.drop_last());
            before.lemma_amounts_are_bounded(times.last());
        }
    }

    /// After withdrawals at moments up to `bound`, either nothing was paid or
    /// no more is withdrawn than has vested at `bound`.
    proof fn lemma_withdrawn_stays_within_vested(self, times: Seq<int>, bound: int)
        requires
            self.wf(),
            forall|i: int| 0 <= i < times.len() ==> times[i] <= bound,
        ensures
            self.spec_paid_by_withdrawals(times) == 0 || self.spec_after_withdrawals(
                times,
            ).withdrawn_amount <= self.spec_vested(bound),
        decreases times.len(),
    {
        if times.len() > 0 {
            let earlier = times.drop_last();
            assert forall|i: int| 0 <= i < earlier.len() implies earlier[i] <= bound by {
                assert(earlier[i] == times[i]);
            }
            self.lemma_withdrawn_stays_within_vested(earlier, bound);
            self.lemma_withdrawals_are_conserved(earlier);
            let before = self.spec_after_withdrawals(earlier);
            before.lemma_amounts_are_bounded(times.last());
            self.vest_schedule.lemma_unlocking_is_monotonic(
                self.total_amount as int,
                times.last(),
                bound,
            );
        }
    }

    /// A grant never pays out more than it holds. Whatever withdrawals were
    /// made, at moments up to `end`, and however the grant is settled at
    /// `end`: what the withdrawals paid, the payout and the refund together
    /// do not exceed the total amount. Where nothing was recorded as
    /// withdrawn beforehand, or no more than has vested at `end`, they make
    /// up exactly the total less what was recorded beforehand.
    pub proof fn lemma_lifetime_payments_are_bounded(self, times: Seq<int>, end: int)
        requires
            self.wf(),
            forall|i: int| 0 <= i < times.len() ==> times[i] <= end,
        ensures
            ({
                let last = self.spec_after_withdrawals(times);
                let paid = self.spec_paid_by_withdrawals(times);
                &&& paid + last.spec_payable(end) + last.spec_unvested(end) <= self.total_amount
                &&& self.withdrawn_amount <= self.spec_vested(end) ==> paid + last.spec_payable(
                    end,
                ) + last.spec_unvested(end) == self.total_amount - self.withdrawn_amount
            }),
    {
        self.lemma_withdrawals_are_conserved(times);
        self.lemma_withdrawn_stays_within_vested(times, end);
        let last = self.spec_after_withdrawals(times);
        last.lemma_amounts_are_bounded(end);
        assert(last.spec_vested(end) == self.spec_vested(end));
    }
}

} // verus!

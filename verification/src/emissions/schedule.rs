//! Linear release schedules.
//!
//! A [`Schedule`] releases nothing before `start_time + cliff`. From then on
//! the released share is the time elapsed since `start_time`, divided by
//! `duration` and capped at one: the cliff gates the release, the ramp is
//! measured from the start. A schedule with `duration == 0` releases
//! everything the moment the cliff is reached.

use vstd::arithmetic::div_mod::{
    lemma_div_is_ordered, lemma_div_multiples_vanish, lemma_fundamental_div_mod,
    lemma_hoist_over_denominator,
};
use vstd::arithmetic::mul::{lemma_mul_inequality, lemma_mul_is_commutative};
use vstd::prelude::*;

verus! {

/// The floor of `amount * numerator / denominator`, as a mathematical integer.
pub open spec fn ratio_floor(amount: int, numerator: int, denominator: int) -> int {
    (amount * numerator) / denominator
}

/// A share of a whole: `numerator / denominator`, between zero and one.
#[derive(Clone, Copy, Debug, PartialEq, Eq, Structural)]
pub struct Fraction {
    pub numerator: u64,
    pub denominator: u64,
}

impl Fraction {
    /// A fraction is well formed when it lies in `[0, 1]`.
    pub open spec fn wf(self) -> bool {
        0 < self.denominator && self.numerator <= self.denominator
    }

    /// The share of `amount` that this fraction stands for, rounded down.
    pub open spec fn spec_of(self, amount: int) -> int {
        ratio_floor(amount, self.numerator as int, self.denominator as int)
    }

    /// The fraction `0 / 1`.
    pub fn zero() -> (r: Fraction)
        ensures
            r == (Fraction { numerator: 0, denominator: 1 }),
            r.wf(),
    {
        Fraction { numerator: 0, denominator: 1 }
    }

    /// The fraction `1 / 1`.
    pub fn one() -> (r: Fraction)
        ensures
            r == (Fraction { numerator: 1, denominator: 1 }),
            r.wf(),
    {
        Fraction { numerator: 1, denominator: 1 }
    }

    /// `floor(amount * numerator / denominator)`, computed without overflow:
    /// `amount` is split into a multiple of the denominator and a remainder,
    /// and each part is scaled on its own.
    pub fn of(&self, amount: u128) -> (r: u128)
        requires
            self.wf(),
        ensures
            r == self.spec_of(amount as int),
            r <= amount,
    {
        let n: u128 = self.numerator as u128;
        let d: u128 = self.denominator as u128;
        let q: u128 = amount / d;
        let rem: u128 = amount % d;
        proof {
            lemma_ratio_split(amount as int, n as int, d as int);
            lemma_ratio_bounded(amount as int, n as int, d as int);
            assert(rem * n <= 0xffff_ffff_ffff_ffff * 0xffff_ffff_ffff_ffff) by (nonlinear_arith)
                requires
                    0 <= rem <= 0xffff_ffff_ffff_ffff,
                    0 <= n <= 0xffff_ffff_ffff_ffff,
            ;
            assert(0 <= q * n && 0 <= rem * n) by (nonlinear_arith)
                requires
                    0 <= q,
                    0 <= rem,
                    0 <= n,
            ;
            lemma_div_is_ordered(0, rem * n, d as int);
        }
        q * n + (rem * n) / d
    }
}

/// Splitting `amount` by the denominator does not change the scaled result:
/// `amount * n / d == (amount / d) * n + ((amount % d) * n) / d`.
pub proof fn lemma_ratio_split(amount: int, n: int, d: int)
    requires
        0 <= amount,
        0 <= n,
        0 < d,
    ensures
        ratio_floor(amount, n, d) == (amount / d) * n + ((amount % d) * n) / d,
{
    let q = amount / d;
    let rem = amount % d;
    lemma_fundamental_div_mod(amount, d);
    assert(amount * n == rem * n + (q * n) * d) by (nonlinear_arith)
        requires
            amount == d * q + rem,
    ;
    lemma_hoist_over_denominator(rem * n, q * n, d as nat);
}

/// A share never exceeds the whole: with `n <= d`,
/// `0 <= amount * n / d <= amount`.
pub proof fn lemma_ratio_bounded(amount: int, n: int, d: int)
    requires
        0 <= amount,
        0 <= n <= d,
        0 < d,
    ensures
        0 <= ratio_floor(amount, n, d) <= amount,
{
    assert(0 <= amount * n) by (nonlinear_arith)
        requires
            0 <= amount,
            0 <= n,
    ;
    assert(amount * n <= amount * d) by (nonlinear_arith)
        requires
            0 <= amount,
            n <= d,
    ;
    lemma_div_is_ordered(0, amount * n, d);
    lemma_div_is_ordered(amount * n, amount * d, d);
    lemma_mul_is_commutative(amount, d);
    lemma_div_multiples_vanish(amount, d);
}

/// The scaled amount grows with the numerator.
pub proof fn lemma_ratio_monotonic(amount: int, n1: int, n2: int, d: int)
    requires
        0 <= amount,
        0 <= n1 <= n2,
        0 < d,
    ensures
        ratio_floor(amount, n1, d) <= ratio_floor(amount, n2, d),
{
    lemma_mul_inequality(n1, n2, amount);
    lemma_mul_is_commutative(amount, n1);
    lemma_mul_is_commutative(amount, n2);
    lemma_div_is_ordered(amount * n1, amount * n2, d);
}

/// A linear release curve: nothing before `start_time + cliff`, then the
/// share `(now - start_time) / duration`, capped at one.
#[derive(Clone, Copy, Debug, PartialEq, Eq, Structural)]
pub struct Schedule {
    /// When the ramp begins, in seconds.
    pub start_time: u64,
    /// Seconds after `start_time` during which nothing is released.
    pub cliff: u64,
    /// Seconds over which the ramp rises from nothing to everything.
    pub duration: u64,
}

impl Schedule {
    /// The first moment at which anything is released.
    pub open spec fn spec_cliff_end(self) -> int {
        self.start_time + self.cliff
    }

    /// Whether `now` lies before the end of the cliff.
    pub open spec fn spec_before_cliff(self, now: int) -> bool {
        now < self.spec_cliff_end()
    }

    /// Whether everything is released at `now`: the cliff has passed and the
    /// ramp, if there is one, has run its full length.
    pub open spec fn spec_fully_unlocked(self, now: int) -> bool {
        !self.spec_before_cliff(now) && now - self.start_time >= self.duration
    }

    /// The released share at `now`, in lowest form at both ends of the ramp.
    pub open spec fn spec_unlocked_fraction(self, now: int) -> Fraction {
        if self.spec_before_cliff(now) {
            Fraction { numerator: 0, denominator: 1 }
        } else if self.spec_fully_unlocked(now) {
            Fraction { numerator: 1, denominator: 1 }
        } else {
            Fraction { numerator: (now - self.start_time) as u64, denominator: self.duration }
        }
    }

    /// The part of `total` released at `now`: nothing before the cliff ends,
    /// all of it once the ramp is over, and in between
    /// `floor(total * (now - start_time) / duration)`.
    pub open spec fn spec_amount_unlocked(self, total: int, now: int) -> int {
        if self.spec_before_cliff(now) {
            0
        } else if self.spec_fully_unlocked(now) {
            total
        } else {
            ratio_floor(total, now - self.start_time, self.duration as int)
        }
    }

    /// Whether `now` lies before `start_time + cliff`. The sum is never
    /// formed, so it cannot overflow.
    pub fn before_cliff(&self, now: u64) -> (r: bool)
        ensures
            r == self.spec_before_cliff(now as int),
    {
        now < self.start_time || now - self.start_time < self.cliff
    }

    /// The released share at `now`, a fraction in `[0, 1]`.
    pub fn unlocked_fraction(&self, now: u64) -> (r: Fraction)
        ensures
            r == self.spec_unlocked_fraction(now as int),
            r.wf(),
    {
        if self.before_cliff(now) {
            Fraction::zero()
        } else {
            let elapsed: u64 = now - self.start_time;
            if elapsed >= self.duration {
                Fraction::one()
            } else {
                Fraction { numerator: elapsed, denominator: self.duration }
            }
        }
    }

    /// The part of `total` released at `now`, rounded down. Never more than
    /// `total`.
    pub fn amount_unlocked(&self, total: u128, now: u64) -> (r: u128)
        ensures
            r == self.spec_amount_unlocked(total as int, now as int),
            r <= total,
    {
        proof {
            self.lemma_fraction_gives_amount(total as int, now as int);
        }
        let share = self.unlocked_fraction(now);
        share.of(total)
    }

    /// The released amount is the released share applied to the total.
    pub proof fn lemma_fraction_gives_amount(self, total: int, now: int)
        requires
            0 <= total,
            0 <= now <= u64::MAX,
        ensures
            self.spec_unlocked_fraction(now).wf(),
            self.spec_unlocked_fraction(now).spec_of(total) == self.spec_amount_unlocked(
                total,
                now,
            ),
    {
        if self.spec_before_cliff(now) {
            assert((total * 0) / 1 == 0) by (nonlinear_arith);
        } else if self.spec_fully_unlocked(now) {
            assert((total * 1) / 1 == total) by (nonlinear_arith);
        } else {
        }
    }

    /// The released amount lies between nothing and the total, at every
    /// moment.
    pub proof fn lemma_unlocked_is_bounded(self, total: int, now: int)
        requires
            0 <= total,
        ensures
            0 <= self.spec_amount_unlocked(total, now) <= total,
    {
        if !self.spec_before_cliff(now) && !self.spec_fully_unlocked(now) {
            lemma_ratio_bounded(total, now - self.start_time, self.duration as int);
        }
    }

    /// The released amount never shrinks as time goes on: the jump at the end
    /// of the cliff goes upwards, and the ramp rises.
    pub proof fn lemma_unlocking_is_monotonic(self, total: int, earlier: int, later: int)
        requires
            0 <= total,
            earlier <= later,
        ensures
            self.spec_amount_unlocked(total, earlier) <= self.spec_amount_unlocked(total, later),
    {
        self.lemma_unlocked_is_bounded(total, earlier);
        self.lemma_unlocked_is_bounded(total, later);
        if !self.spec_before_cliff(earlier) && !self.spec_fully_unlocked(later) {
            lemma_ratio_monotonic(
                total,
                earlier - self.start_time,
                later - self.start_time,
                self.duration as int,
            );
        }
    }

    /// Once the cliff and a full duration have passed, everything is
    /// released, and it stays so.
    pub proof fn lemma_unlocks_everything_after_ramp(self, total: int, now: int)
        requires
            now >= self.start_time + self.cliff + self.duration,
        ensures
            self.spec_amount_unlocked(total, self.start_time + self.cliff + self.duration)
                == total,
            self.spec_amount_unlocked(total, now) == total,
    {
    }

    /// At the very end of the cliff a schedule with a ramp has released
    /// `floor(total * cliff / duration)`, capped at the total. So it has
    /// released nothing there exactly when `total * cliff < duration`; with no
    /// cliff that is always so.
    pub proof fn lemma_unlocked_at_cliff_end(self, total: int)
        requires
            0 <= total,
            0 < self.duration,
        ensures
            (self.spec_amount_unlocked(total, self.spec_cliff_end()) == 0) <==> (total
                * self.cliff < self.duration),
            self.cliff == 0 ==> self.spec_amount_unlocked(total, self.spec_cliff_end()) == 0,
    {
        let c = self.cliff as int;
        let d = self.duration as int;
        assert(0 <= total * c) by (nonlinear_arith)
            requires
                0 <= total,
                0 <= c,
        ;
        assert(c == 0 ==> total * c == 0) by (nonlinear_arith);
        if c >= d {
            assert(total > 0 ==> total * c >= d) by (nonlinear_arith)
                requires
                    c >= d,
                    d > 0,
            ;
            assert(total == 0 ==> total * c == 0) by (nonlinear_arith);
        } else {
            if total * c < d {
                assert((total * c) / d == 0) by (nonlinear_arith)
                    requires
                        0 <= total * c < d,
                ;
            } else {
                lemma_div_is_ordered(d, total * c, d);
                assert(d / d == 1) by (nonlinear_arith)
                    requires
                        d > 0,
                ;
            }
        }
    }
}

} // verus!

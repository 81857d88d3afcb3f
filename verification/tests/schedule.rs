use white_whale::emissions::{Fraction, Schedule};

const TOTAL: u128 = 5_000_000_000000;

fn yearly(cliff: u64) -> Schedule {
    Schedule {
        start_time: 1642402274,
        cliff,
        duration: 31536000,
    }
}

#[test]
fn fraction_of_rounds_down() {
    let third = Fraction {
        numerator: 1,
        denominator: 3,
    };
    assert_eq!(third.of(10), 3);
    assert_eq!(third.of(2), 0);
    assert_eq!(third.of(0), 0);
    let two_thirds = Fraction {
        numerator: 2,
        denominator: 3,
    };
    assert_eq!(two_thirds.of(10), 6);
    assert_eq!(two_thirds.of(11), 7);
}

#[test]
fn fraction_of_does_not_overflow() {
    let third = Fraction {
        numerator: 1,
        denominator: 3,
    };
    assert_eq!(
        third.of(u128::MAX),
        113427455640312821154458202477256070485u128
    );
    let two_thirds = Fraction {
        numerator: 2,
        denominator: 3,
    };
    assert_eq!(
        two_thirds.of(u128::MAX),
        226854911280625642308916404954512140970u128
    );
    let almost_one = Fraction {
        numerator: u64::MAX - 1,
        denominator: u64::MAX,
    };
    assert_eq!(
        almost_one.of(u128::MAX),
        340282366920938463444927863358058659838u128
    );
    let whole = Fraction {
        numerator: u64::MAX,
        denominator: u64::MAX,
    };
    assert_eq!(whole.of(u128::MAX), u128::MAX);
}

#[test]
fn fraction_zero_and_one() {
    assert_eq!(
        Fraction::zero(),
        Fraction {
            numerator: 0,
            denominator: 1
        }
    );
    assert_eq!(
        Fraction::one(),
        Fraction {
            numerator: 1,
            denominator: 1
        }
    );
    assert_eq!(Fraction::zero().of(TOTAL), 0);
    assert_eq!(Fraction::one().of(TOTAL), TOTAL);
}

#[test]
fn nothing_is_unlocked_before_the_start() {
    let s = yearly(0);
    assert_eq!(s.amount_unlocked(TOTAL, 0), 0);
    assert_eq!(s.amount_unlocked(TOTAL, 1642402273), 0);
    assert_eq!(s.unlocked_fraction(1642402273), Fraction::zero());
    assert!(s.before_cliff(1642402273));
    assert!(!s.before_cliff(1642402274));
}

#[test]
fn ramp_without_cliff() {
    let s = yearly(0);
    assert_eq!(s.amount_unlocked(TOTAL, 1642402274), 0);
    assert_eq!(s.amount_unlocked(TOTAL, 1642402275), 158548);
    assert_eq!(s.amount_unlocked(TOTAL, 1642402285), 1744038);
    assert_eq!(s.amount_unlocked(TOTAL, 1642402274 + 300000), 47564687975);
    assert_eq!(
        s.amount_unlocked(TOTAL, 1642402274 + 31536000 / 2),
        TOTAL / 2
    );
    assert_eq!(
        s.unlocked_fraction(1642402285),
        Fraction {
            numerator: 11,
            denominator: 31536000
        }
    );
}

#[test]
fn everything_is_unlocked_when_the_ramp_is_over() {
    let s = yearly(0);
    assert_eq!(
        s.amount_unlocked(TOTAL, 1642402274 + 31536000 - 1),
        TOTAL - 158549
    );
    assert_eq!(s.amount_unlocked(TOTAL, 1642402274 + 31536000), TOTAL);
    assert_eq!(s.amount_unlocked(TOTAL, u64::MAX), TOTAL);
    assert_eq!(
        s.unlocked_fraction(1642402274 + 31536000),
        Fraction::one()
    );
}

#[test]
fn cliff_gates_but_ramp_runs_from_start() {
    let s = yearly(7776000);
    // one second before the end of the cliff
    assert_eq!(s.amount_unlocked(TOTAL, 1642402274 + 7776000 - 1), 0);
    // at the end of the cliff the ramp has been running since the start
    assert_eq!(
        s.amount_unlocked(TOTAL, 1642402274 + 7776000),
        TOTAL * 7776000 / 31536000
    );
    assert_eq!(
        s.amount_unlocked(TOTAL, 1642402274 + 7776001),
        1232876870877
    );
    // after cliff plus duration everything is unlocked
    assert_eq!(
        s.amount_unlocked(TOTAL, 1642402274 + 7776000 + 31536000),
        TOTAL
    );
    // and already after the duration alone
    assert_eq!(s.amount_unlocked(TOTAL, 1642402274 + 31536000), TOTAL);
}

#[test]
fn cliff_longer_than_duration_is_a_step() {
    let s = Schedule {
        start_time: 100,
        cliff: 50,
        duration: 10,
    };
    assert_eq!(s.amount_unlocked(1000, 149), 0);
    assert_eq!(s.amount_unlocked(1000, 150), 1000);
}

#[test]
fn zero_duration_is_a_step() {
    let s = Schedule {
        start_time: 1000,
        cliff: 0,
        duration: 0,
    };
    assert_eq!(s.amount_unlocked(TOTAL, 999), 0);
    assert_eq!(s.amount_unlocked(TOTAL, 1000), TOTAL);
    assert_eq!(s.amount_unlocked(TOTAL, 1001), TOTAL);
    assert_eq!(s.unlocked_fraction(999), Fraction::zero());
    assert_eq!(s.unlocked_fraction(1000), Fraction::one());

    let with_cliff = Schedule {
        start_time: 1000,
        cliff: 10,
        duration: 0,
    };
    assert_eq!(with_cliff.amount_unlocked(TOTAL, 1009), 0);
    assert_eq!(with_cliff.amount_unlocked(TOTAL, 1010), TOTAL);
}

#[test]
fn cliff_end_beyond_the_clock_never_unlocks() {
    let s = Schedule {
        start_time: u64::MAX,
        cliff: u64::MAX,
        duration: 1,
    };
    assert!(s.before_cliff(u64::MAX));
    assert_eq!(s.amount_unlocked(u128::MAX, u64::MAX), 0);
    let at_the_edge = Schedule {
        start_time: u64::MAX - 5,
        cliff: 5,
        duration: 10,
    };
    assert!(at_the_edge.before_cliff(u64::MAX - 1));
    assert_eq!(at_the_edge.amount_unlocked(1000, u64::MAX), 500);
}

#[test]
fn huge_amounts_are_exact() {
    let s = Schedule {
        start_time: 0,
        cliff: 0,
        duration: 3,
    };
    assert_eq!(
        s.amount_unlocked(u128::MAX, 1),
        113427455640312821154458202477256070485u128
    );
    assert_eq!(
        s.amount_unlocked(u128::MAX, 2),
        226854911280625642308916404954512140970u128
    );
    assert_eq!(s.amount_unlocked(u128::MAX, 3), u128::MAX);
}

#[test]
fn unlocking_never_shrinks_and_never_exceeds_the_total() {
    let schedules = [
        yearly(0),
        yearly(7776000),
        Schedule {
            start_time: 1642402274,
            cliff: 40000000,
            duration: 31536000,
        },
        Schedule {
            start_time: 1642402274,
            cliff: 5,
            duration: 0,
        },
    ];
    for s in schedules.iter() {
        let mut last = 0u128;
        let mut t = 1642402000u64;
        while t < 1642402274 + 80000000 {
            let now = s.amount_unlocked(TOTAL, t);
            assert!(now >= last);
            assert!(now <= TOTAL);
            last = now;
            t += 99991;
        }
        assert_eq!(last, TOTAL);
    }
}

#[test]
fn at_the_end_of_the_cliff() {
    // no cliff: nothing at the start of the ramp
    let plain = yearly(0);
    assert_eq!(plain.amount_unlocked(TOTAL, 1642402274), 0);
    // with a cliff the ramp has risen already, unless the amount is too small to show
    let gated = Schedule {
        start_time: 0,
        cliff: 5,
        duration: 10,
    };
    assert_eq!(gated.amount_unlocked(100, 5), 50);
    assert_eq!(gated.amount_unlocked(1, 5), 0);
    assert_eq!(gated.amount_unlocked(2, 5), 1);
    assert_eq!(gated.amount_unlocked(0, 5), 0);
}

#[test]
fn fraction_of_agrees_with_multiply_ratio() {
    let amounts = [
        0u128,
        1,
        2,
        999,
        5_000_000_000000,
        u64::MAX as u128,
        u64::MAX as u128 + 1,
        u128::MAX / 3,
        u128::MAX - 1,
        u128::MAX,
    ];
    let shares = [
        (0u64, 1u64),
        (1, 1),
        (1, 2),
        (1, 3),
        (2, 3),
        (11, 31536000),
        (7776001, 31536000),
        (31535999, 31536000),
        (1, u64::MAX),
        (u64::MAX - 1, u64::MAX),
        (u64::MAX, u64::MAX),
    ];
    for amount in amounts {
        for (numerator, denominator) in shares {
            let share = Fraction {
                numerator,
                denominator,
            };
            assert_eq!(
                share.of(amount),
                cosmwasm_std::Uint128::new(amount)
                    .multiply_ratio(numerator, denominator)
                    .u128()
            );
        }
    }
}

#[test]
fn amount_unlocked_agrees_with_the_formula() {
    let schedules = [
        yearly(0),
        yearly(7776000),
        Schedule {
            start_time: 1642400000,
            cliff: 7770000,
            duration: 31536000,
        },
        Schedule {
            start_time: 1642402274,
            cliff: 40000000,
            duration: 31536000,
        },
        Schedule {
            start_time: 1642402274,
            cliff: 100,
            duration: 0,
        },
    ];
    for s in schedules {
        let mut t = 1642390000u64;
        while t < 1642402274 + 75000000 {
            let expected = if (t as u128) < s.start_time as u128 + s.cliff as u128 {
                0
            } else if s.duration == 0 || t - s.start_time >= s.duration {
                TOTAL
            } else {
                TOTAL * (t - s.start_time) as u128 / s.duration as u128
            };
            assert_eq!(s.amount_unlocked(TOTAL, t), expected);
            t += 1234567;
        }
    }
}

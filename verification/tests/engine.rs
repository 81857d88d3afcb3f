use white_whale::emissions::{
    AllocationInfo, ConfigResponse, ContractError, EmissionEngine, ExecuteMsg, ExecuteResponse,
    InstantiateMsg, InvalidReason, QueryMsg, QueryResponse, ReceiveMsg, Schedule, StateResponse,
    Termination, Transfer,
};
use white_whale::emissions::engine::sum_batch;

const TOTAL: u128 = 5_000_000_000000;
const START: u64 = 1642402274;
const YEAR: u64 = 31536000;
const DEFAULT_UNLOCK: Schedule = Schedule {
    start_time: 0,
    cliff: 0,
    duration: 1,
};

fn s(text: &str) -> String {
    text.to_string()
}

fn engine() -> EmissionEngine {
    EmissionEngine::instantiate(InstantiateMsg {
        owner: s("owner"),
        gov: s("gov"),
        refund_recepient: s("refund"),
        whale_token: s("whale"),
        default_unlock_schedule: DEFAULT_UNLOCK,
    })
}

fn grant(total: u128, cliff: u64) -> AllocationInfo {
    AllocationInfo {
        total_amount: total,
        withdrawn_amount: 0,
        vest_schedule: Schedule {
            start_time: START,
            cliff,
            duration: YEAR,
        },
        unlock_schedule: None,
    }
}

fn funded(accounts: &[(&str, AllocationInfo)]) -> EmissionEngine {
    let mut e = engine();
    let batch: Vec<(String, AllocationInfo)> =
        accounts.iter().map(|(a, g)| (s(a), *g)).collect();
    let sum: u128 = batch.iter().map(|(_, g)| g.total_amount).sum();
    e.create_allocations(&s("owner"), &s("whale"), sum, &batch)
        .unwrap();
    e
}

#[test]
fn batch_totals() {
    assert_eq!(sum_batch(&vec![]), Some(0));
    assert_eq!(
        sum_batch(&vec![(s("a"), grant(1, 0)), (s("b"), grant(2, 0)), (s("c"), grant(3, 0))]),
        Some(6)
    );
    assert_eq!(
        sum_batch(&vec![(s("a"), grant(u128::MAX - 1, 0)), (s("b"), grant(1, 0))]),
        Some(u128::MAX)
    );
    assert_eq!(
        sum_batch(&vec![(s("a"), grant(u128::MAX, 0)), (s("b"), grant(1, 0))]),
        None
    );
    assert_eq!(
        sum_batch(&vec![
            (s("a"), grant(u128::MAX, 0)),
            (s("b"), grant(u128::MAX, 0)),
            (s("c"), grant(0, 0))
        ]),
        None
    );
}

#[test]
fn mismatch_with_a_batch_too_large_to_sum() {
    let mut e = engine();
    let batch = vec![(s("a"), grant(u128::MAX, 0)), (s("b"), grant(7, 0))];
    assert_eq!(
        e.create_allocations(&s("owner"), &s("whale"), 6, &batch),
        Err(ContractError::AmountMismatch {
            expected: u128::MAX,
            actual: 6
        })
    );
    assert_eq!(
        e.create_allocations(&s("owner"), &s("whale"), u128::MAX, &batch),
        Err(ContractError::AmountMismatch {
            expected: u128::MAX,
            actual: u128::MAX
        })
    );
    assert!(e.query_allocation(&s("a")).is_err());
}

#[test]
fn checks_come_in_order() {
    let mut e = engine();
    let batch = vec![(s("a"), grant(10, 0)), (s("a"), grant(10, 0))];
    // not the owner, wrong token, wrong amount, duplicate: the owner is checked first
    assert_eq!(
        e.create_allocations(&s("intruder"), &s("other"), 1, &batch),
        Err(ContractError::OnlyOwnerCanCreateAllocations)
    );
    assert_eq!(
        e.create_allocations(&s("owner"), &s("other"), 1, &batch),
        Err(ContractError::WrongToken)
    );
    assert_eq!(
        e.create_allocations(&s("owner"), &s("whale"), 1, &batch),
        Err(ContractError::AmountMismatch {
            expected: 20,
            actual: 1
        })
    );
    assert_eq!(
        e.create_allocations(&s("owner"), &s("whale"), 20, &batch),
        Err(ContractError::AllocationAlreadyExists { account: s("a") })
    );
}

#[test]
fn empty_batch_needs_an_empty_deposit() {
    let mut e = engine();
    assert_eq!(e.create_allocations(&s("owner"), &s("whale"), 0, &vec![]), Ok(()));
    assert_eq!(
        e.create_allocations(&s("owner"), &s("whale"), 1, &vec![]),
        Err(ContractError::AmountMismatch {
            expected: 0,
            actual: 1
        })
    );
    assert_eq!(
        e.query_state(),
        StateResponse {
            total_whale_deposited: 0,
            remaining_whale_tokens: 0
        }
    );
}

#[test]
fn duplicate_account_rejects_the_whole_batch() {
    let mut e = funded(&[("old", grant(100, 0))]);
    let before = e.query_state();

    // the last entry names an account that exists
    let batch = vec![
        (s("new_1"), grant(10, 0)),
        (s("new_2"), grant(20, 0)),
        (s("old"), grant(30, 0)),
    ];
    assert_eq!(
        e.create_allocations(&s("owner"), &s("whale"), 60, &batch),
        Err(ContractError::AllocationAlreadyExists { account: s("old") })
    );
    assert_eq!(e.query_allocation(&s("new_1")), Err(ContractError::NotFound));
    assert_eq!(e.query_allocation(&s("new_2")), Err(ContractError::NotFound));
    assert_eq!(e.query_allocation(&s("old")), Ok(grant(100, 0)));
    assert_eq!(e.query_state(), before);

    // an account occurs twice within the batch
    let batch = vec![
        (s("new_1"), grant(10, 0)),
        (s("new_2"), grant(20, 0)),
        (s("new_1"), grant(30, 0)),
    ];
    assert_eq!(
        e.create_allocations(&s("owner"), &s("whale"), 60, &batch),
        Err(ContractError::AllocationAlreadyExists {
            account: s("new_1")
        })
    );
    assert_eq!(e.query_allocation(&s("new_1")), Err(ContractError::NotFound));
    assert_eq!(e.query_allocation(&s("new_2")), Err(ContractError::NotFound));
    assert_eq!(e.query_state(), before);

    // the same accounts are accepted once the duplicate is gone
    let batch = vec![(s("new_1"), grant(10, 0)), (s("new_2"), grant(20, 0))];
    assert_eq!(e.create_allocations(&s("owner"), &s("whale"), 30, &batch), Ok(()));
    assert_eq!(e.query_allocation(&s("new_1")), Ok(grant(10, 0)));
    assert_eq!(e.query_allocation(&s("new_2")), Ok(grant(20, 0)));
    assert_eq!(
        e.query_state(),
        StateResponse {
            total_whale_deposited: 130,
            remaining_whale_tokens: 130
        }
    );
}

#[test]
fn first_refused_entry_names_the_error() {
    let mut e = engine();
    let bad = AllocationInfo {
        unlock_schedule: Some(Schedule {
            start_time: START + 1,
            cliff: 0,
            duration: 1,
        }),
        ..grant(20, 0)
    };
    let batch = vec![
        (s("a"), grant(10, 0)),
        (s("b"), bad),
        (s("a"), grant(30, 0)),
    ];
    assert_eq!(
        e.create_allocations(&s("owner"), &s("whale"), 60, &batch),
        Err(ContractError::InvalidAllocation {
            account: s("b"),
            reason: InvalidReason::UnlockStartsAfterVest
        })
    );
    assert_eq!(e.query_allocation(&s("a")), Err(ContractError::NotFound));
    let overdrawn = AllocationInfo {
        withdrawn_amount: 21,
        ..grant(20, 0)
    };
    let batch = vec![(s("a"), grant(10, 0)), (s("b"), overdrawn)];
    assert_eq!(
        e.create_allocations(&s("owner"), &s("whale"), 30, &batch),
        Err(ContractError::InvalidAllocation {
            account: s("b"),
            reason: InvalidReason::WithdrawnExceedsTotal
        })
    );
}

#[test]
fn withdraw_without_allocation_is_not_found() {
    let mut e = funded(&[("investor", grant(TOTAL, 0))]);
    assert_eq!(e.withdraw(&s("nobody"), START + 1), Err(ContractError::NotFound));
    assert_eq!(e.withdraw(&s("owner"), START + 1), Err(ContractError::NotFound));
}

#[test]
fn one_second_and_eleven_seconds_after_start() {
    let mut e = funded(&[("investor", grant(TOTAL, 0))]);
    let shown = e
        .simulate_withdraw(&s("investor"), Some(START + 1), 0)
        .unwrap();
    assert_eq!(shown.withdrawable_amount, 158548);
    assert_eq!(
        e.withdraw(&s("investor"), START + 1),
        Ok(Transfer {
            recipient: s("gov"),
            amount: 158548
        })
    );
    assert_eq!(
        e.withdraw(&s("investor"), START + 11),
        Ok(Transfer {
            recipient: s("gov"),
            amount: 1585490
        })
    );
    assert_eq!(
        e.query_allocation(&s("investor")).unwrap().withdrawn_amount,
        1744038
    );
}

#[test]
fn second_withdraw_at_the_same_moment_is_refused() {
    let mut e = funded(&[("investor", grant(TOTAL, 0)), ("team", grant(TOTAL, 7776000))]);
    for now in [START + 1, START + 500, START + 7776000, START + YEAR] {
        for who in ["investor", "team"] {
            if e.withdraw(&s(who), now).is_ok() {
                let after_first = e.query_allocation(&s(who)).unwrap();
                assert_eq!(e.withdraw(&s(who), now), Err(ContractError::NothingToWithdraw));
                assert_eq!(e.query_allocation(&s(who)).unwrap(), after_first);
            }
        }
    }
    assert_eq!(e.query_allocation(&s("investor")).unwrap().withdrawn_amount, TOTAL);
    assert_eq!(e.query_allocation(&s("team")).unwrap().withdrawn_amount, TOTAL);
}

#[test]
fn simulate_then_withdraw_round_trip() {
    let mut e = funded(&[("investor", grant(TOTAL, 0)), ("team", grant(TOTAL, 7776000))]);
    for now in [START + 7, START + 7776003, START + 20000000, START + YEAR + 1] {
        for who in ["investor", "team"] {
            let shown = e.simulate_withdraw(&s(who), Some(now), 0).unwrap();
            let by_default = e.simulate_withdraw(&s(who), None, now).unwrap();
            assert_eq!(shown, by_default);
            let before = e.query_allocation(&s(who)).unwrap().withdrawn_amount;
            match e.withdraw(&s(who), now) {
                Ok(transfer) => assert_eq!(transfer.amount, shown.withdrawable_amount),
                Err(_) => assert_eq!(shown.withdrawable_amount, 0),
            }
            let after = e.query_allocation(&s(who)).unwrap().withdrawn_amount;
            assert_eq!(after, before + shown.withdrawable_amount);
        }
    }
}

#[test]
fn simulate_for_the_past_and_for_nobody() {
    let mut e = funded(&[("investor", grant(TOTAL, 0))]);
    e.withdraw(&s("investor"), START + 11).unwrap();
    // a moment that has passed: less has vested than was withdrawn since
    let past = e
        .simulate_withdraw(&s("investor"), Some(START + 1), START + 11)
        .unwrap();
    assert_eq!(past.total_whale_vested, 158548);
    assert_eq!(past.withdrawn_amount, 1744038);
    assert_eq!(past.withdrawable_amount, 0);
    assert_eq!(past.total_whale_locked, 0);
    assert_eq!(past.total_whale_unlocked, TOTAL);
    assert_eq!(
        e.simulate_withdraw(&s("nobody"), None, START),
        Err(ContractError::NotFound)
    );
}

#[test]
fn termination_one_second_after_vest_start() {
    let mut e = funded(&[("investor", grant(TOTAL, 0)), ("other", grant(TOTAL, 0))]);
    let state = e.query_state();
    let termination = e.terminate(&s("owner"), &s("investor"), START + 1).unwrap();
    assert_eq!(
        termination,
        Termination {
            payout: Some(Transfer {
                recipient: s("investor"),
                amount: 158548
            }),
            refund: Some(Transfer {
                recipient: s("refund"),
                amount: 4999999841452
            }),
        }
    );
    // the record is gone, now and later
    assert_eq!(e.query_allocation(&s("investor")), Err(ContractError::NotFound));
    assert_eq!(
        e.simulate_withdraw(&s("investor"), None, START + 300001),
        Err(ContractError::NotFound)
    );
    assert_eq!(
        e.withdraw(&s("investor"), START + 300001),
        Err(ContractError::NotFound)
    );
    // the pool totals are not adjusted, the other grant goes on
    assert_eq!(e.query_state(), state);
    assert_eq!(
        e.withdraw(&s("other"), START + 300000).unwrap().amount,
        47564687975
    );
}

#[test]
fn termination_after_a_withdrawal_pays_the_rest() {
    let mut e = funded(&[("investor", grant(TOTAL, 0))]);
    e.withdraw(&s("investor"), START + 1).unwrap();
    let termination = e.terminate(&s("owner"), &s("investor"), START + 11).unwrap();
    assert_eq!(termination.payout.unwrap().amount, 1585490);
    assert_eq!(termination.refund.unwrap().amount, TOTAL - 1744038);
}

#[test]
fn termination_of_a_finished_grant_is_refused() {
    let mut e = funded(&[("investor", grant(TOTAL, 0))]);
    e.withdraw(&s("investor"), START + YEAR).unwrap();
    assert_eq!(
        e.terminate(&s("owner"), &s("investor"), START + YEAR),
        Err(ContractError::NoTokensToRefund)
    );
    // the record stays: fully withdrawn is not removed
    assert_eq!(
        e.query_allocation(&s("investor")),
        Ok(AllocationInfo {
            withdrawn_amount: TOTAL,
            ..grant(TOTAL, 0)
        })
    );
    assert_eq!(
        ContractError::NoTokensToRefund.to_string(),
        "Generic error: No WHALE available to refund."
    );
}

#[test]
fn termination_of_a_vested_unpaid_grant_refunds_nothing() {
    let mut e = funded(&[("investor", grant(TOTAL, 0))]);
    let termination = e.terminate(&s("owner"), &s("investor"), START + YEAR).unwrap();
    assert_eq!(
        termination,
        Termination {
            payout: Some(Transfer {
                recipient: s("investor"),
                amount: TOTAL
            }),
            refund: None,
        }
    );
}

#[test]
fn termination_checks_come_in_order() {
    let mut e = funded(&[("investor", grant(TOTAL, 0))]);
    assert_eq!(
        e.terminate(&s("investor"), &s("nobody"), START),
        Err(ContractError::Unauthorized)
    );
    assert_eq!(
        e.terminate(&s("owner"), &s("nobody"), START),
        Err(ContractError::NotFound)
    );
    assert_eq!(e.query_allocation(&s("investor")), Ok(grant(TOTAL, 0)));
}

#[test]
fn new_owner_takes_over() {
    let mut e = funded(&[("investor", grant(TOTAL, 0))]);
    assert_eq!(
        e.transfer_ownership(&s("investor"), s("investor")),
        Err(ContractError::Unauthorized)
    );
    assert_eq!(e.query_config().owner, "owner");
    assert_eq!(e.transfer_ownership(&s("owner"), s("heir")), Ok(()));
    assert_eq!(
        e.query_config(),
        ConfigResponse {
            owner: s("heir"),
            gov: s("gov"),
            refund_recepient: s("refund"),
            whale_token: s("whale"),
            default_unlock_schedule: DEFAULT_UNLOCK,
        }
    );
    // the old owner has lost every right
    assert_eq!(
        e.terminate(&s("owner"), &s("investor"), START),
        Err(ContractError::Unauthorized)
    );
    assert_eq!(
        e.create_allocations(&s("owner"), &s("whale"), 0, &vec![]),
        Err(ContractError::OnlyOwnerCanCreateAllocations)
    );
    assert!(e.terminate(&s("heir"), &s("investor"), START).is_ok());
}

#[test]
fn restore_rebuilds_an_engine() {
    let config = ConfigResponse {
        owner: s("owner"),
        gov: s("gov"),
        refund_recepient: s("refund"),
        whale_token: s("whale"),
        default_unlock_schedule: Schedule {
            start_time: 7,
            cliff: 8,
            duration: 9,
        },
    };
    let state = StateResponse {
        total_whale_deposited: 30,
        remaining_whale_tokens: 30,
    };
    let kept = vec![
        (
            s("a"),
            AllocationInfo {
                withdrawn_amount: 4,
                ..grant(10, 0)
            },
        ),
        (s("b"), grant(20, 0)),
    ];
    let e = EmissionEngine::restore(config.clone(), state, &kept).ok().unwrap();
    assert_eq!(e.query_config(), config);
    assert_eq!(e.query_state(), state);
    assert_eq!(e.query_allocation(&s("a")), Ok(kept[0].1));
    assert_eq!(e.query_allocation(&s("b")), Ok(kept[1].1));
    assert_eq!(e.query_allocation(&s("c")), Err(ContractError::NotFound));

    let twice = vec![(s("a"), grant(10, 0)), (s("a"), grant(20, 0))];
    assert_eq!(
        EmissionEngine::restore(config.clone(), state, &twice).err(),
        Some(ContractError::AllocationAlreadyExists { account: s("a") })
    );
    let overdrawn = vec![(
        s("a"),
        AllocationInfo {
            withdrawn_amount: 11,
            ..grant(10, 0)
        },
    )];
    assert_eq!(
        EmissionEngine::restore(config, state, &overdrawn).err(),
        Some(ContractError::InvalidAllocation {
            account: s("a"),
            reason: InvalidReason::WithdrawnExceedsTotal
        })
    );
}

#[test]
fn execute_and_query_dispatch() {
    let mut e = engine();
    let created = e.execute(
        0,
        &s("whale"),
        ExecuteMsg::Receive {
            sender: s("owner"),
            amount: TOTAL,
            msg: ReceiveMsg::CreateAllocations {
                allocations: vec![(s("investor"), grant(TOTAL, 0))],
            },
        },
    );
    assert_eq!(created, Ok(ExecuteResponse::AllocationsCreated));
    assert_eq!(
        e.query(0, &QueryMsg::State {}),
        Ok(QueryResponse::State(StateResponse {
            total_whale_deposited: TOTAL,
            remaining_whale_tokens: TOTAL
        }))
    );
    assert_eq!(
        e.query(
            0,
            &QueryMsg::Allocation {
                account: s("investor")
            }
        ),
        Ok(QueryResponse::Allocation(grant(TOTAL, 0)))
    );
    assert_eq!(
        e.query(0, &QueryMsg::Allocation { account: s("x") }),
        Err(ContractError::NotFound)
    );
    // the moment of the query is used where the message names none
    let now = match e.query(
        START + 11,
        &QueryMsg::SimulateWithdraw {
            account: s("investor"),
            timestamp: None,
        },
    ) {
        Ok(QueryResponse::SimulateWithdraw(resp)) => resp,
        other => panic!("unexpected answer {:?}", other),
    };
    assert_eq!(now.withdrawable_amount, 1744038);
    let at = match e.query(
        START + 11,
        &QueryMsg::SimulateWithdraw {
            account: s("investor"),
            timestamp: Some(START + 1),
        },
    ) {
        Ok(QueryResponse::SimulateWithdraw(resp)) => resp,
        other => panic!("unexpected answer {:?}", other),
    };
    assert_eq!(at.withdrawable_amount, 158548);
    assert_eq!(
        e.execute(START + 1, &s("investor"), ExecuteMsg::Withdraw {}),
        Ok(ExecuteResponse::Withdrawn(Transfer {
            recipient: s("gov"),
            amount: 158548
        }))
    );
    assert_eq!(
        e.execute(START - 1, &s("investor"), ExecuteMsg::Withdraw {}),
        Err(ContractError::TooEarly)
    );
    assert_eq!(
        e.execute(
            START + 1,
            &s("owner"),
            ExecuteMsg::TransferOwnership {
                new_owner: s("heir")
            }
        ),
        Ok(ExecuteResponse::OwnershipTransferred)
    );
    let ended = e.execute(
        START + 1,
        &s("heir"),
        ExecuteMsg::Terminate {
            user_address: s("investor"),
        },
    );
    assert_eq!(
        ended,
        Ok(ExecuteResponse::Terminated(Termination {
            payout: None,
            refund: Some(Transfer {
                recipient: s("refund"),
                amount: TOTAL - 158548
            }),
        }))
    );
}

#[test]
fn every_error_has_its_text() {
    assert_eq!(ContractError::Unauthorized.reason(), "Unauthorized");
    assert_eq!(ContractError::Unauthorized.to_string(), "Generic error: Unauthorized");
    assert_eq!(
        ContractError::OnlyOwnerCanCreateAllocations.reason(),
        "Only owner can create allocations"
    );
    assert_eq!(
        ContractError::OnlyOwnerCanCreateAllocations.to_string(),
        "Generic error: Only owner can create allocations"
    );
    assert_eq!(
        ContractError::AllocationAlreadyExists { account: s("bob") }.to_string(),
        "Generic error: Allocation already exists for user bob"
    );
    assert_eq!(
        ContractError::InvalidAllocation {
            account: s("bob"),
            reason: InvalidReason::UnlockStartsAfterVest
        }
        .to_string(),
        "Generic error: Invalid Allocation for bob. Unlock schedule needs to begin before vest schedule"
    );
    assert_eq!(
        ContractError::InvalidAllocation {
            account: s("bob"),
            reason: InvalidReason::WithdrawnExceedsTotal
        }
        .reason(),
        "Invalid Allocation for bob. Withdrawn amount must not exceed total amount"
    );
    assert_eq!(
        ContractError::WrongToken.to_string(),
        "Generic error: Only WHALE token can be deposited"
    );
    assert_eq!(
        ContractError::AmountMismatch {
            expected: 1,
            actual: 2
        }
        .to_string(),
        "Generic error: WHALE deposit amount mismatch"
    );
    assert_eq!(
        ContractError::NotFound.to_string(),
        "white_whale::emissions::AllocationInfo not found"
    );
    assert_eq!(
        ContractError::NotFound.reason(),
        "white_whale::emissions::AllocationInfo not found"
    );
    assert_eq!(
        ContractError::TooEarly.to_string(),
        "Generic error: Withdrawals not allowed yet"
    );
    assert_eq!(
        ContractError::NothingToWithdraw.to_string(),
        "Generic error: No unlocked WHALE to be withdrawn"
    );
    assert_eq!(
        ContractError::NoTokensToRefund.reason(),
        "No WHALE available to refund."
    );
}

#[test]
fn non_owner_funding_is_refused_before_anything_else() {
    let mut e = funded(&[("old", grant(100, 0))]);
    let before = e.query_state();
    // right token, right amount, acceptable batch: the sender alone is wrong
    let batch = vec![(s("new"), grant(10, 0))];
    let refused = e.execute(
        0,
        &s("whale"),
        ExecuteMsg::Receive {
            sender: s("intruder"),
            amount: 10,
            msg: ReceiveMsg::CreateAllocations {
                allocations: batch.clone(),
            },
        },
    );
    assert_eq!(refused, Err(ContractError::OnlyOwnerCanCreateAllocations));
    // wrong amount as well: the sender is still what is reported
    assert_eq!(
        e.create_allocations(&s("intruder"), &s("whale"), 1_000, &batch),
        Err(ContractError::OnlyOwnerCanCreateAllocations)
    );
    assert_eq!(e.query_allocation(&s("new")), Err(ContractError::NotFound));
    assert_eq!(e.query_state(), before);
    // the other owner-only operations keep their own refusal
    assert_eq!(
        e.terminate(&s("intruder"), &s("old"), START),
        Err(ContractError::Unauthorized)
    );
    assert_eq!(
        e.transfer_ownership(&s("intruder"), s("intruder")),
        Err(ContractError::Unauthorized)
    );
}

#[test]
fn default_unlock_schedule_is_kept_and_shown() {
    let late = Schedule {
        start_time: START + 10 * YEAR,
        cliff: YEAR,
        duration: YEAR,
    };
    let mut e = EmissionEngine::instantiate(InstantiateMsg {
        owner: s("owner"),
        gov: s("gov"),
        refund_recepient: s("refund"),
        whale_token: s("whale"),
        default_unlock_schedule: late,
    });
    assert_eq!(e.query_config().default_unlock_schedule, late);
    assert_eq!(
        e.query(0, &QueryMsg::Config {}),
        Ok(QueryResponse::Config(ConfigResponse {
            owner: s("owner"),
            gov: s("gov"),
            refund_recepient: s("refund"),
            whale_token: s("whale"),
            default_unlock_schedule: late,
        }))
    );
    // it holds nothing back: without an unlock schedule of its own an
    // allocation is released by vesting alone
    e.create_allocations(
        &s("owner"),
        &s("whale"),
        TOTAL,
        &vec![(s("investor"), grant(TOTAL, 0))],
    )
    .unwrap();
    let shown = e.simulate_withdraw(&s("investor"), None, START + 11).unwrap();
    assert_eq!(shown.total_whale_unlocked, TOTAL);
    assert_eq!(shown.total_whale_locked, 0);
    assert_eq!(shown.withdrawable_amount, 1744038);
    assert_eq!(e.withdraw(&s("investor"), START + 11).unwrap().amount, 1744038);
    // and it stays as it was through every operation
    e.transfer_ownership(&s("owner"), s("heir")).unwrap();
    e.terminate(&s("heir"), &s("investor"), START + 12).unwrap();
    assert_eq!(e.query_config().default_unlock_schedule, late);
}

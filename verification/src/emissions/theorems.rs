//! What holds of the engine's operations, whatever the state and the
//! arguments. Each statement is proved from the descriptions of the
//! operations in [`engine`](crate::emissions::engine).

use crate::emissions::allocation::AllocationInfo;
use crate::emissions::engine::{
    batch_total, spec_create_allocations, spec_simulate_withdraw, spec_terminate, spec_withdraw,
    EngineView,
};
use crate::emissions::error::ErrorView;
use crate::emissions::ledger::{all_well_formed, spec_create, spec_enter_batch};
use crate::emissions::msg::TransferView;
use vstd::prelude::*;

verus! {

/// A batch that is entered holds only new accounts, each once, and only
/// well-formed allocations. The ledger that results holds what it held
/// before for the accounts that it knew, and for each account of the batch
/// its allocation from the batch, and nothing else.
pub proof fn lemma_entered_batch(
    ledger: Map<Seq<char>, AllocationInfo>,
    batch: Seq<(Seq<char>, AllocationInfo)>,
)
    requires
        spec_enter_batch(ledger, batch) is Ok,
    ensures
        forall|i: int|
            0 <= i < batch.len() ==> !ledger.dom().contains((#[trigger] batch[i]).0)
                && batch[i].1.wf(),
        forall|i: int, j: int|
            0 <= i < j < batch.len() ==> (#[trigger] batch[i]).0 != (#[trigger] batch[j]).0,
        forall|i: int|
            0 <= i < batch.len() ==> spec_enter_batch(ledger, batch)->Ok_0.dom().contains(
                (#[trigger] batch[i]).0,
            ) && spec_enter_batch(ledger, batch)->Ok_0[batch[i].0] == batch[i].1,
        forall|account: Seq<char>| #[trigger]
            ledger.dom().contains(account) ==> spec_enter_batch(
                ledger,
                batch,
            )->Ok_0.dom().contains(account) && spec_enter_batch(ledger, batch)->Ok_0[account]
                == ledger[account],
        forall|account: Seq<char>| #[trigger]
            spec_enter_batch(ledger, batch)->Ok_0.dom().contains(account)
                ==> ledger.dom().contains(account) || exists|i: int|
                0 <= i < batch.len() && (#[trigger] batch[i]).0 == account,
        all_well_formed(ledger) ==> all_well_formed(spec_enter_batch(ledger, batch)->Ok_0),
    decreases batch.len(),
{
    if batch.len() > 0 {
        let next = spec_create(ledger, batch[0].0, batch[0].1)->Ok_0;
        let rest = batch.skip(1);
        let result = spec_enter_batch(ledger, batch)->Ok_0;
        assert(result == spec_enter_batch(next, rest)->Ok_0);
        lemma_entered_batch(next, rest);
        assert(next.dom().contains(batch[0].0));
        assert forall|i: int| 0 <= i < batch.len() implies !ledger.dom().contains(
            (#[trigger] batch[i]).0,
        ) && batch[i].1.wf() by {
            if i > 0 {
                assert(rest[i - 1] == batch[i]);
            }
        }
        assert forall|i: int, j: int| 0 <= i < j < batch.len() implies (#[trigger] batch[i]).0
            != (#[trigger] batch[j]).0 by {
            assert(rest[j - 1] == batch[j]);
            if i > 0 {
                assert(rest[i - 1] == batch[i]);
            }
        }
        assert forall|i: int| 0 <= i < batch.len() implies result.dom().contains(
            (#[trigger] batch[i]).0,
        ) && result[batch[i].0] == batch[i].1 by {
            if i > 0 {
                assert(rest[i - 1] == batch[i]);
            }
        }
        assert forall|account: Seq<char>| #[trigger]
            ledger.dom().contains(account) implies result.dom().contains(account)
            && result[account] == ledger[account] by {
            assert(next.dom().contains(account));
            assert(next[account] == ledger[account]);
        }
        assert forall|account: Seq<char>| #[trigger]
            result.dom().contains(account) implies ledger.dom().contains(account) || exists|
            i: int,
        |
            0 <= i < batch.len() && (#[trigger] batch[i]).0 == account by {
            if !next.dom().contains(account) {
                let k = choose|k: int| 0 <= k < rest.len() && (#[trigger] rest[k]).0 == account;
                assert(batch[k + 1] == rest[k]);
            } else if account == batch[0].0 {
                assert(batch[0].0 == account);
            }
        }
    }
}

/// All or nothing: a batch in which some account has an allocation already,
/// or occurs a second time, is refused as a whole. Whoever sends it and
/// whatever it is funded with, no allocation is created.
pub proof fn lemma_duplicate_account_refuses_batch(
    pre: EngineView,
    creator: Seq<char>,
    deposit_token: Seq<char>,
    deposit_amount: u128,
    batch: Seq<(Seq<char>, AllocationInfo)>,
    i: int,
)
    requires
        0 <= i < batch.len(),
        pre.allocations.dom().contains(batch[i].0) || exists|j: int|
            0 <= j < i && (#[trigger] batch[j]).0 == batch[i].0,
    ensures
        spec_enter_batch(pre.allocations, batch) is Err,
        spec_create_allocations(pre, creator, deposit_token, deposit_amount, batch) is Err,
{
    if spec_enter_batch(pre.allocations, batch) is Ok {
        lemma_entered_batch(pre.allocations, batch);
        if !pre.allocations.dom().contains(batch[i].0) {
            let j = choose|j: int| 0 <= j < i && (#[trigger] batch[j]).0 == batch[i].0;
            assert(batch[j].0 != batch[i].0);
        }
    }
}

/// Creating allocations keeps a well-formed engine well formed, raises both
/// pool totals by the deposit, which is the batch total, and leaves the
/// addresses and the allocations of all other accounts as they were.
pub proof fn lemma_created_allocations(
    pre: EngineView,
    creator: Seq<char>,
    deposit_token: Seq<char>,
    deposit_amount: u128,
    batch: Seq<(Seq<char>, AllocationInfo)>,
)
    requires
        pre.wf(),
        pre.has_room(deposit_amount),
        spec_create_allocations(pre, creator, deposit_token, deposit_amount, batch) is Ok,
    ensures
        ({
            let post = spec_create_allocations(
                pre,
                creator,
                deposit_token,
                deposit_amount,
                batch,
            )->Ok_0;
            &&& post.wf()
            &&& post.config() == pre.config()
            &&& post.total_whale_deposited == pre.total_whale_deposited + batch_total(batch)
            &&& post.remaining_whale_tokens == pre.remaining_whale_tokens + batch_total(batch)
            &&& forall|k: int|
                0 <= k < batch.len() ==> post.allocations.dom().contains((#[trigger] batch[k]).0)
                    && post.allocations[batch[k].0] == batch[k].1
            &&& forall|account: Seq<char>| #[trigger]
                pre.allocations.dom().contains(account) ==> post.allocations.dom().contains(
                    account,
                ) && post.allocations[account] == pre.allocations[account]
        }),
{
    lemma_entered_batch(pre.allocations, batch);
}

/// A withdrawal changes one thing: the withdrawn amount of the caller's
/// allocation, which grows by exactly what is transferred. The transfer
/// goes to the governance address and is not empty. The engine stays well
/// formed.
pub proof fn lemma_withdrawal_is_conserved(pre: EngineView, caller: Seq<char>, now: int)
    requires
        pre.wf(),
        spec_withdraw(pre, caller, now) is Ok,
    ensures
        ({
            let (post, transfer) = spec_withdraw(pre, caller, now)->Ok_0;
            &&& post.wf()
            &&& post.config() == pre.config()
            &&& post.state() == pre.state()
            &&& transfer.recipient == pre.gov
            &&& transfer.amount > 0
            &&& post.allocations.dom() == pre.allocations.dom()
            &&& post.allocations[caller].withdrawn_amount
                == pre.allocations[caller].withdrawn_amount + transfer.amount
            &&& post.allocations[caller].withdrawn_amount <= pre.allocations[caller].total_amount
            &&& post.allocations[caller].total_amount == pre.allocations[caller].total_amount
            &&& post.allocations[caller].vest_schedule == pre.allocations[caller].vest_schedule
            &&& post.allocations[caller].unlock_schedule
                == pre.allocations[caller].unlock_schedule
            &&& forall|account: Seq<char>|
                account != caller && #[trigger] pre.allocations.dom().contains(account)
                    ==> post.allocations[account] == pre.allocations[account]
        }),
{
    let allocation = pre.allocations[caller];
    assert(pre.allocations.dom().contains(caller));
    allocation.lemma_amounts_are_bounded(now);
    let (post, transfer) = spec_withdraw(pre, caller, now)->Ok_0;
    assert(post.allocations.dom() =~= pre.allocations.dom());
}

/// Idempotence: of two withdrawals by one account at the same moment, the
/// second is refused with `NothingToWithdraw`.
pub proof fn lemma_second_withdrawal_is_refused(pre: EngineView, caller: Seq<char>, now: int)
    requires
        pre.wf(),
        spec_withdraw(pre, caller, now) is Ok,
    ensures
        spec_withdraw(spec_withdraw(pre, caller, now)->Ok_0.0, caller, now) == Err::<
            (EngineView, TransferView),
            ErrorView,
        >(ErrorView::NothingToWithdraw),
{
    let allocation = pre.allocations[caller];
    assert(pre.allocations.dom().contains(caller));
    allocation.lemma_second_withdrawal_is_refused(now);
}

/// Round trip: a withdrawal pays exactly what a simulation for the same
/// account at the same moment shows as withdrawable, and the withdrawn
/// amount grows by exactly that. It makes no difference whether the
/// simulation is given the moment or takes the current one.
pub proof fn lemma_withdrawal_matches_simulation(
    pre: EngineView,
    caller: Seq<char>,
    now: int,
    timestamp: Option<u64>,
)
    requires
        pre.wf(),
        spec_withdraw(pre, caller, now) is Ok,
        timestamp is Some ==> timestamp->Some_0 == now,
    ensures
        spec_simulate_withdraw(pre, caller, timestamp, now) is Ok,
        spec_withdraw(pre, caller, now)->Ok_0.1.amount == spec_simulate_withdraw(
            pre,
            caller,
            timestamp,
            now,
        )->Ok_0.withdrawable_amount,
        spec_withdraw(pre, caller, now)->Ok_0.0.allocations[caller].withdrawn_amount
            == pre.allocations[caller].withdrawn_amount + spec_simulate_withdraw(
            pre,
            caller,
            timestamp,
            now,
        )->Ok_0.withdrawable_amount,
{
    let allocation = pre.allocations[caller];
    assert(pre.allocations.dom().contains(caller));
    allocation.lemma_withdrawal_pays_what_simulation_shows(now);
}

/// A simulation shows what the allocation holds: locked and unlocked make
/// up the total, nothing is negative, and what is withdrawable is never
/// more than the allocation has left.
pub proof fn lemma_simulation_is_consistent(
    pre: EngineView,
    account: Seq<char>,
    timestamp: Option<u64>,
    now: int,
)
    requires
        pre.wf(),
        spec_simulate_withdraw(pre, account, timestamp, now) is Ok,
    ensures
        ({
            let shown = spec_simulate_withdraw(pre, account, timestamp, now)->Ok_0;
            let allocation = pre.allocations[account];
            &&& shown.total_whale_locked + shown.total_whale_unlocked == allocation.total_amount
            &&& shown.total_whale_vested <= allocation.total_amount
            &&& shown.withdrawn_amount == allocation.withdrawn_amount
            &&& shown.withdrawn_amount + shown.withdrawable_amount <= allocation.total_amount
            &&& allocation.unlock_schedule is None ==> shown.total_whale_locked == 0
        }),
{
    let allocation = pre.allocations[account];
    assert(pre.allocations.dom().contains(account));
    let at = match timestamp {
        Some(at) => at as int,
        None => now,
    };
    allocation.lemma_amounts_are_bounded(at);
}

/// A termination settles the whole grant and deletes it. The holder is paid
/// what had vested and was not withdrawn, the refund recipient gets what had
/// not vested, and at least one of the two is something. Where no more was
/// withdrawn than had vested, the payout, the refund and what was withdrawn
/// before make up the total. The pool totals and the other allocations stay
/// as they were, and the account has no allocation afterwards: nothing more
/// vests for it, and a withdrawal or a simulation finds nothing.
pub proof fn lemma_termination_settles(
    pre: EngineView,
    caller: Seq<char>,
    account: Seq<char>,
    now: int,
)
    requires
        pre.wf(),
        spec_terminate(pre, caller, account, now) is Ok,
    ensures
        ({
            let (post, termination) = spec_terminate(pre, caller, account, now)->Ok_0;
            let allocation = pre.allocations[account];
            let paid: int = match termination.payout {
                Some(transfer) => transfer.amount as int,
                None => 0,
            };
            let refunded: int = match termination.refund {
                Some(transfer) => transfer.amount as int,
                None => 0,
            };
            &&& post.wf()
            &&& caller == pre.owner
            &&& post.config() == pre.config()
            &&& post.state() == pre.state()
            &&& termination.payout is Some ==> termination.payout->Some_0.recipient == account
                && termination.payout->Some_0.amount > 0
            &&& termination.refund is Some ==> termination.refund->Some_0.recipient
                == pre.refund_recepient && termination.refund->Some_0.amount > 0
            &&& paid == allocation.spec_payable(now)
            &&& refunded == allocation.total_amount - allocation.spec_vested(now)
            &&& paid + refunded > 0
            &&& allocation.withdrawn_amount <= allocation.spec_vested(now) ==> paid + refunded
                + allocation.withdrawn_amount == allocation.total_amount
            &&& !post.allocations.dom().contains(account)
            &&& forall|other: Seq<char>|
                other != account && #[trigger] pre.allocations.dom().contains(other)
                    ==> post.allocations.dom().contains(other) && post.allocations[other]
                    == pre.allocations[other]
            &&& forall|later: int| #[trigger]
                spec_withdraw(post, account, later) == Err::<
                    (EngineView, TransferView),
                    ErrorView,
                >(ErrorView::NotFound)
            &&& forall|at: Option<u64>, later: int| #[trigger]
                spec_simulate_withdraw(post, account, at, later) is Err
        }),
{
    let allocation = pre.allocations[account];
    assert(pre.allocations.dom().contains(account));
    allocation.lemma_amounts_are_bounded(now);
}

} // verus!

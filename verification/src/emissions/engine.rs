//! The emissions engine: the pool, its owner, and the operations on the
//! allocation ledger.
//!
//! Each operation is described by a function on mathematical values, from
//! the state before and the arguments to the state after and what is to be
//! transferred, or to the error. The executable operations are proved to do
//! exactly that, and to leave the engine as it was wherever they fail.

use crate::emissions::allocation::{AllocationInfo, SimulateWithdrawResponse};
use crate::emissions::error::{ContractError, ErrorView};
use crate::emissions::ledger::{all_well_formed, spec_enter_batch, AllocationLedger};
use crate::emissions::msg::{
    batch_view, AllocationResponse, ConfigResponse, ConfigView, ExecuteMsg, ExecuteResponse,
    InstantiateMsg, QueryMsg, QueryResponse, ReceiveMsg, StateResponse, Termination,
    TerminationView, Transfer, TransferView,
};
use crate::emissions::schedule::Schedule;
use vstd::prelude::*;

verus! {

/// The engine: who governs it, what was deposited, and the ledger. The
/// default unlock schedule is kept as it was given and shown on request; no
/// operation reads it.
pub struct EmissionEngine {
    owner: String,
    gov: String,
    refund_recepient: String,
    whale_token: String,
    default_unlock_schedule: Schedule,
    total_whale_deposited: u128,
    remaining_whale_tokens: u128,
    ledger: AllocationLedger,
}

/// The engine as a mathematical value.
pub ghost struct EngineView {
    pub owner: Seq<char>,
    pub gov: Seq<char>,
    pub refund_recepient: Seq<char>,
    pub whale_token: Seq<char>,
    pub default_unlock_schedule: Schedule,
    pub total_whale_deposited: u128,
    pub remaining_whale_tokens: u128,
    pub allocations: Map<Seq<char>, AllocationInfo>,
}

impl EngineView {
    /// Every allocation is well formed.
    pub open spec fn wf(self) -> bool {
        all_well_formed(self.allocations)
    }

    /// Whether both pool totals can take `amount` more.
    pub open spec fn has_room(self, amount: u128) -> bool {
        self.total_whale_deposited + amount <= u128::MAX && self.remaining_whale_tokens + amount
            <= u128::MAX
    }

    /// The addresses of the engine, with its default unlock schedule.
    pub open spec fn config(self) -> ConfigView {
        ConfigView {
            owner: self.owner,
            gov: self.gov,
            refund_recepient: self.refund_recepient,
            whale_token: self.whale_token,
            default_unlock_schedule: self.default_unlock_schedule,
        }
    }

    /// The totals of the pool.
    pub open spec fn state(self) -> StateResponse {
        StateResponse {
            total_whale_deposited: self.total_whale_deposited,
            remaining_whale_tokens: self.remaining_whale_tokens,
        }
    }
}

/// The sum of the total amounts of a batch.
pub open spec fn batch_total(batch: Seq<(Seq<char>, AllocationInfo)>) -> int
    decreases batch.len(),
{
    if batch.len() == 0 {
        0
    } else {
        batch_total(batch.drop_last()) + batch.last().1.total_amount
    }
}

/// The sum that a mismatch reports as expected: the batch total, capped at
/// the largest amount that can be written down.
pub open spec fn spec_expected_amount(batch: Seq<(Seq<char>, AllocationInfo)>) -> u128 {
    if batch_total(batch) <= u128::MAX {
        batch_total(batch) as u128
    } else {
        u128::MAX
    }
}

/// What creating allocations does. The creator must be the owner, the
/// funding must be in the designated token and equal the batch total, and
/// every entry must be accepted by the ledger, in this order. Then both
/// pool totals grow by the funding. A creator who is not the owner is
/// refused with an error of its own, `OnlyOwnerCanCreateAllocations`.
pub open spec fn spec_create_allocations(
    pre: EngineView,
    creator: Seq<char>,
    deposit_token: Seq<char>,
    deposit_amount: u128,
    batch: Seq<(Seq<char>, AllocationInfo)>,
) -> Result<EngineView, ErrorView> {
    if creator != pre.owner {
        Err(ErrorView::OnlyOwnerCanCreateAllocations)
    } else if deposit_token != pre.whale_token {
        Err(ErrorView::WrongToken)
    } else if deposit_amount != batch_total(batch) {
        Err(
            ErrorView::AmountMismatch {
                expected: spec_expected_amount(batch),
                actual: deposit_amount,
            },
        )
    } else {
        match spec_enter_batch(pre.allocations, batch) {
            Err(e) => Err(e),
            Ok(allocations) => Ok(
                EngineView {
                    total_whale_deposited: (pre.total_whale_deposited + deposit_amount) as u128,
                    remaining_whale_tokens: (pre.remaining_whale_tokens + deposit_amount) as u128,
                    allocations,
                    ..pre
                },
            ),
        }
    }
}

/// The engine that holds the given addresses, totals and allocations, or the
/// error with which the ledger refuses the allocations.
pub open spec fn spec_restore(
    config: ConfigView,
    state: StateResponse,
    batch: Seq<(Seq<char>, AllocationInfo)>,
) -> Result<EngineView, ErrorView> {
    match spec_enter_batch(Map::<Seq<char>, AllocationInfo>::empty(), batch) {
        Err(e) => Err(e),
        Ok(allocations) => Ok(
            EngineView {
                owner: config.owner,
                gov: config.gov,
                refund_recepient: config.refund_recepient,
                whale_token: config.whale_token,
                default_unlock_schedule: config.default_unlock_schedule,
                total_whale_deposited: state.total_whale_deposited,
                remaining_whale_tokens: state.remaining_whale_tokens,
                allocations,
            },
        ),
    }
}

/// What a withdrawal does. The caller must have an allocation, the vesting
/// cliff must have passed, and something must be withdrawable. Then the
/// amount is recorded as withdrawn and sent to the governance address.
pub open spec fn spec_withdraw(pre: EngineView, caller: Seq<char>, now: int) -> Result<
    (EngineView, TransferView),
    ErrorView,
> {
    if !pre.allocations.dom().contains(caller) {
        Err(ErrorView::NotFound)
    } else {
        let allocation = pre.allocations[caller];
        match allocation.spec_withdraw(now) {
            Err(e) => Err(e@),
            Ok(amount) => Ok(
                (
                    EngineView {
                        allocations: pre.allocations.insert(
                            caller,
                            allocation.spec_after_withdrawal(amount as int),
                        ),
                        ..pre
                    },
                    TransferView { recipient: pre.gov, amount },
                ),
            ),
        }
    }
}

/// What a termination does. The caller must be the owner, the account must
/// have an allocation, and something must be payable or unvested. Then the
/// holder is paid what is vested and not withdrawn, the refund recipient
/// gets what is not vested, each where that is anything, and the allocation
/// is deleted. The pool totals stay as they are.
pub open spec fn spec_terminate(
    pre: EngineView,
    caller: Seq<char>,
    account: Seq<char>,
    now: int,
) -> Result<(EngineView, TerminationView), ErrorView> {
    if caller != pre.owner {
        Err(ErrorView::Unauthorized)
    } else if !pre.allocations.dom().contains(account) {
        Err(ErrorView::NotFound)
    } else {
        match pre.allocations[account].spec_settle(now) {
            Err(e) => Err(e@),
            Ok(settlement) => Ok(
                (
                    EngineView { allocations: pre.allocations.remove(account), ..pre },
                    TerminationView {
                        payout: if settlement.payable > 0 {
                            Some(
                                TransferView { recipient: account, amount: settlement.payable },
                            )
                        } else {
                            None
                        },
                        refund: if settlement.refund > 0 {
                            Some(
                                TransferView {
                                    recipient: pre.refund_recepient,
                                    amount: settlement.refund,
                                },
                            )
                        } else {
                            None
                        },
                    },
                ),
            ),
        }
    }
}

/// What handing on the ownership does: the caller must be the owner.
pub open spec fn spec_transfer_ownership(
    pre: EngineView,
    caller: Seq<char>,
    new_owner: Seq<char>,
) -> Result<EngineView, ErrorView> {
    if caller != pre.owner {
        Err(ErrorView::Unauthorized)
    } else {
        Ok(EngineView { owner: new_owner, ..pre })
    }
}

/// The allocation that a query for the account returns.
pub open spec fn spec_allocation(pre: EngineView, account: Seq<char>) -> Result<
    AllocationInfo,
    ErrorView,
> {
    if pre.allocations.dom().contains(account) {
        Ok(pre.allocations[account])
    } else {
        Err(ErrorView::NotFound)
    }
}

/// What simulating a withdrawal shows: the figures of the account's
/// allocation at `timestamp` or, without one, at `now`.
pub open spec fn spec_simulate_withdraw(
    pre: EngineView,
    account: Seq<char>,
    timestamp: Option<u64>,
    now: int,
) -> Result<SimulateWithdrawResponse, ErrorView> {
    if pre.allocations.dom().contains(account) {
        Ok(
            pre.allocations[account].spec_simulate(
                match timestamp {
                    Some(at) => at as int,
                    None => now,
                },
            ),
        )
    } else {
        Err(ErrorView::NotFound)
    }
}

/// A prefix of a batch sums to no more than the whole batch.
proof fn lemma_batch_total_grows(batch: Seq<(Seq<char>, AllocationInfo)>, k: int)
    requires
        0 <= k <= batch.len(),
    ensures
        0 <= batch_total(batch.take(k)) <= batch_total(batch),
    decreases batch.len() - k,
{
    if k == batch.len() {
        assert(batch.take(k) =~= batch);
        lemma_batch_total_nonnegative(batch);
    } else {
        lemma_batch_total_grows(batch, k + 1);
        assert(batch.take(k + 1).drop_last() =~= batch.take(k));
        lemma_batch_total_nonnegative(batch.take(k));
    }
}

/// A batch total is never negative.
proof fn lemma_batch_total_nonnegative(batch: Seq<(Seq<char>, AllocationInfo)>)
    ensures
        0 <= batch_total(batch),
    decreases batch.len(),
{
    if batch.len() > 0 {
        lemma_batch_total_nonnegative(batch.drop_last());
    }
}

/// The sum of the total amounts of the batch, or `None` where the sum
/// exceeds `u128::MAX`.
pub fn sum_batch(allocations: &Vec<(String, AllocationInfo)>) -> (r: Option<u128>)
    ensures
        match r {
            Some(total) => total == batch_total(batch_view(allocations@)),
            None => batch_total(batch_view(allocations@)) > u128::MAX,
        },
{
    let ghost batch = batch_view(allocations@);
    let mut total: u128 = 0;
    let mut i: usize = 0;
    while i < allocations.len()
        invariant
            i <= allocations@.len(),
            batch == batch_view(allocations@),
            total == batch_total(batch.take(i as int)),
        decreases allocations@.len() - i,
    {
        let amount = allocations[i].1.total_amount;
        proof {
            assert(batch.take(i + 1).drop_last() =~= batch.take(i as int));
            assert(batch.take(i + 1).last() == batch[i as int]);
            lemma_batch_total_grows(batch, i + 1);
        }
        if amount > u128::MAX - total {
            return None;
        }
        total = total + amount;
        i = i + 1;
    }
    proof {
        assert(batch.take(i as int) =~= batch);
    }
    Some(total)
}

impl View for EmissionEngine {
    type V = EngineView;

    closed spec fn view(&self) -> EngineView {
        EngineView {
            owner: self.owner@,
            gov: self.gov@,
            refund_recepient: self.refund_recepient@,
            whale_token: self.whale_token@,
            default_unlock_schedule: self.default_unlock_schedule,
            total_whale_deposited: self.total_whale_deposited,
            remaining_whale_tokens: self.remaining_whale_tokens,
            allocations: self.ledger@,
        }
    }
}

impl EmissionEngine {
    /// The ledger holds each account once.
    pub closed spec fn ledger_sound(&self) -> bool {
        self.ledger.keys_unique()
    }

    /// A well-formed engine has a sound ledger of well-formed allocations.
    pub open spec fn wf(&self) -> bool {
        self.ledger_sound() && self@.wf()
    }

    /// A fresh engine with the addresses and the default unlock schedule of
    /// `msg`, nothing deposited and no allocation.
    pub fn instantiate(msg: InstantiateMsg) -> (r: EmissionEngine)
        ensures
            r.wf(),
            r@.config() == msg@,
            r@.total_whale_deposited == 0,
            r@.remaining_whale_tokens == 0,
            r@.allocations == Map::<Seq<char>, AllocationInfo>::empty(),
    {
        EmissionEngine {
            owner: msg.owner,
            gov: msg.gov,
            refund_recepient: msg.refund_recepient,
            whale_token: msg.whale_token,
            default_unlock_schedule: msg.default_unlock_schedule,
            total_whale_deposited: 0,
            remaining_whale_tokens: 0,
            ledger: AllocationLedger::new(),
        }
    }

    /// An engine with the given addresses, totals and allocations, as they
    /// were kept somewhere. Refused as the ledger refuses the allocations:
    /// where an account occurs twice, or an allocation is malformed.
    pub fn restore(
        config: ConfigResponse,
        state: StateResponse,
        allocations: &Vec<(String, AllocationInfo)>,
    ) -> (r: Result<EmissionEngine, ContractError>)
        ensures
            match r {
                Ok(engine) => engine.wf() && spec_restore(
                    config@,
                    state,
                    batch_view(allocations@),
                ) == Ok::<EngineView, ErrorView>(engine@),
                Err(e) => spec_restore(config@, state, batch_view(allocations@)) == Err::<
                    EngineView,
                    ErrorView,
                >(e@),
            },
    {
        match AllocationLedger::new().enter_batch(allocations) {
            Err(e) => Err(e),
            Ok(ledger) => Ok(
                EmissionEngine {
                    owner: config.owner,
                    gov: config.gov,
                    refund_recepient: config.refund_recepient,
                    whale_token: config.whale_token,
                    default_unlock_schedule: config.default_unlock_schedule,
                    total_whale_deposited: state.total_whale_deposited,
                    remaining_whale_tokens: state.remaining_whale_tokens,
                    ledger,
                },
            ),
        }
    }

    /// Creates the allocations of a batch that `creator` funds with
    /// `deposit_amount` of `deposit_token`. All or nothing: where any check
    /// or any entry fails, the error says which, and the engine is unchanged.
    ///
    /// The pool totals must have room for the deposit.
    pub fn create_allocations(
        &mut self,
        creator: &String,
        deposit_token: &String,
        deposit_amount: u128,
        allocations: &Vec<(String, AllocationInfo)>,
    ) -> (r: Result<(), ContractError>)
        requires
            old(self).wf(),
            old(self)@.has_room(deposit_amount),
        ensures
            final(self).wf(),
            match r {
                Ok(_) => spec_create_allocations(
                    old(self)@,
                    creator@,
                    deposit_token@,
                    deposit_amount,
                    batch_view(allocations@),
                ) == Ok::<EngineView, ErrorView>(final(self)@),
                Err(e) => spec_create_allocations(
                    old(self)@,
                    creator@,
                    deposit_token@,
                    deposit_amount,
                    batch_view(allocations@),
                ) == Err::<EngineView, ErrorView>(e@) && final(self)@ == old(self)@,
            },
    {
        let ghost batch = batch_view(allocations@);
        if *creator != self.owner {
            return Err(ContractError::OnlyOwnerCanCreateAllocations);
        }
        if *deposit_token != self.whale_token {
            return Err(ContractError::WrongToken);
        }
        match sum_batch(allocations) {
            Some(total) => {
                if total != deposit_amount {
                    return Err(
                        ContractError::AmountMismatch { expected: total, actual: deposit_amount },
                    );
                }
            },
            None => {
                return Err(
                    ContractError::AmountMismatch { expected: u128::MAX, actual: deposit_amount },
                );
            },
        }
        let working = match self.ledger.snapshot().enter_batch(allocations) {
            Ok(working) => working,
            Err(e) => {
                return Err(e);
            },
        };
        self.ledger = working;
        self.total_whale_deposited = self.total_whale_deposited + deposit_amount;
        self.remaining_whale_tokens = self.remaining_whale_tokens + deposit_amount;
        Ok(())
    }

    /// Withdraws for `caller` what the allocation has released at `now`, and
    /// returns the transfer of that amount to the governance address. Refused
    /// with `NotFound`, `TooEarly` or `NothingToWithdraw`; the engine is then
    /// unchanged.
    pub fn withdraw(&mut self, caller: &String, now: u64) -> (r: Result<Transfer, ContractError>)
        requires
            old(self).wf(),
        ensures
            final(self).wf(),
            match r {
                Ok(transfer) => spec_withdraw(old(self)@, caller@, now as int) == Ok::<
                    (EngineView, TransferView),
                    ErrorView,
                >((final(self)@, transfer@)),
                Err(e) => spec_withdraw(old(self)@, caller@, now as int) == Err::<
                    (EngineView, TransferView),
                    ErrorView,
                >(e@) && final(self)@ == old(self)@,
            },
    {
        let mut allocation = match self.ledger.get(caller) {
            Some(allocation) => allocation,
            None => {
                return Err(ContractError::NotFound);
            },
        };
        match allocation.withdraw(now) {
            Err(e) => Err(e),
            Ok(amount) => {
                self.ledger.record_withdrawal(caller, amount);
                Ok(Transfer { recipient: self.gov.clone(), amount })
            },
        }
    }

    /// Ends the allocation of `account` at `now`, on the owner's word, and
    /// returns the transfers that settle it. Refused with `Unauthorized`,
    /// `NotFound` or `NoTokensToRefund`; the engine is then unchanged.
    pub fn terminate(&mut self, caller: &String, account: &String, now: u64) -> (r: Result<
        Termination,
        ContractError,
    >)
        requires
            old(self).wf(),
        ensures
            final(self).wf(),
            match r {
                Ok(termination) => spec_terminate(old(self)@, caller@, account@, now as int)
                    == Ok::<(EngineView, TerminationView), ErrorView>(
                    (final(self)@, termination@),
                ),
                Err(e) => spec_terminate(old(self)@, caller@, account@, now as int) == Err::<
                    (EngineView, TerminationView),
                    ErrorView,
                >(e@) && final(self)@ == old(self)@,
            },
    {
        if *caller != self.owner {
            return Err(ContractError::Unauthorized);
        }
        let allocation = match self.ledger.get(account) {
            Some(allocation) => allocation,
            None => {
                return Err(ContractError::NotFound);
            },
        };
        match allocation.settle(now) {
            Err(e) => Err(e),
            Ok(settlement) => {
                self.ledger.remove(account);
                let payout = if settlement.payable > 0 {
                    Some(Transfer { recipient: account.clone(), amount: settlement.payable })
                } else {
                    None
                };
                let refund = if settlement.refund > 0 {
                    Some(
                        Transfer {
                            recipient: self.refund_recepient.clone(),
                            amount: settlement.refund,
                        },
                    )
                } else {
                    None
                };
                Ok(Termination { payout, refund })
            },
        }
    }

    /// Makes `new_owner` the owner, on the owner's word. Refused with
    /// `Unauthorized`; the engine is then unchanged.
    pub fn transfer_ownership(&mut self, caller: &String, new_owner: String) -> (r: Result<
        (),
        ContractError,
    >)
        requires
            old(self).wf(),
        ensures
            final(self).wf(),
            match r {
                Ok(_) => spec_transfer_ownership(old(self)@, caller@, new_owner@) == Ok::<
                    EngineView,
                    ErrorView,
                >(final(self)@),
                Err(e) => spec_transfer_ownership(old(self)@, caller@, new_owner@) == Err::<
                    EngineView,
                    ErrorView,
                >(e@) && final(self)@ == old(self)@,
            },
    {
        if *caller != self.owner {
            return Err(ContractError::Unauthorized);
        }
        self.owner = new_owner;
        Ok(())
    }

    /// The addresses of the engine, with its default unlock schedule.
    pub fn query_config(&self) -> (r: ConfigResponse)
        ensures
            r@ == self@.config(),
    {
        ConfigResponse {
            owner: self.owner.clone(),
            gov: self.gov.clone(),
            refund_recepient: self.refund_recepient.clone(),
            whale_token: self.whale_token.clone(),
            default_unlock_schedule: self.default_unlock_schedule,
        }
    }

    /// The totals of the pool.
    pub fn query_state(&self) -> (r: StateResponse)
        ensures
            r == self@.state(),
    {
        StateResponse {
            total_whale_deposited: self.total_whale_deposited,
            remaining_whale_tokens: self.remaining_whale_tokens,
        }
    }

    /// The allocation of `account`, or `NotFound`.
    pub fn query_allocation(&self, account: &String) -> (r: Result<
        AllocationResponse,
        ContractError,
    >)
        requires
            self.wf(),
        ensures
            match r {
                Ok(allocation) => spec_allocation(self@, account@) == Ok::<
                    AllocationInfo,
                    ErrorView,
                >(allocation),
                Err(e) => spec_allocation(self@, account@) == Err::<AllocationInfo, ErrorView>(
                    e@,
                ),
            },
    {
        match self.ledger.get(account) {
            Some(allocation) => Ok(allocation),
            None => Err(ContractError::NotFound),
        }
    }

    /// The figures of the allocation of `account` at `timestamp` or, where
    /// none is given, at `now`; `NotFound` where the account has none.
    /// Nothing is changed.
    pub fn simulate_withdraw(&self, account: &String, timestamp: Option<u64>, now: u64) -> (r:
        Result<SimulateWithdrawResponse, ContractError>)
        requires
            self.wf(),
        ensures
            match r {
                Ok(response) => spec_simulate_withdraw(self@, account@, timestamp, now as int)
                    == Ok::<SimulateWithdrawResponse, ErrorView>(response),
                Err(e) => spec_simulate_withdraw(self@, account@, timestamp, now as int) == Err::<
                    SimulateWithdrawResponse,
                    ErrorView,
                >(e@),
            },
    {
        let at = match timestamp {
            Some(at) => at,
            None => now,
        };
        match self.ledger.get(account) {
            Some(allocation) => Ok(allocation.simulate(at)),
            None => Err(ContractError::NotFound),
        }
    }

    /// Carries out `msg`, sent by `sender` at `now`. A funding transfer is
    /// delivered by its token, so for `Receive` the sender is the token and
    /// the message names who sent the funds. The outcome is that of the
    /// operation which the message stands for.
    pub fn execute(&mut self, now: u64, sender: &String, msg: ExecuteMsg) -> (r: Result<
        ExecuteResponse,
        ContractError,
    >)
        requires
            old(self).wf(),
            spec_has_room(old(self)@, msg),
        ensures
            final(self).wf(),
            spec_executed(old(self)@, now as int, sender@, msg, final(self)@, r),
    {
        match msg {
            ExecuteMsg::Receive { sender: creator, amount, msg: instruction } => {
                match instruction {
                    ReceiveMsg::CreateAllocations { allocations } => {
                        match self.create_allocations(&creator, sender, amount, &allocations) {
                            Ok(()) => Ok(ExecuteResponse::AllocationsCreated),
                            Err(e) => Err(e),
                        }
                    },
                }
            },
            ExecuteMsg::Withdraw {  } => {
                match self.withdraw(sender, now) {
                    Ok(transfer) => Ok(ExecuteResponse::Withdrawn(transfer)),
                    Err(e) => Err(e),
                }
            },
            ExecuteMsg::Terminate { user_address } => {
                match self.terminate(sender, &user_address, now) {
                    Ok(termination) => Ok(ExecuteResponse::Terminated(termination)),
                    Err(e) => Err(e),
                }
            },
            ExecuteMsg::TransferOwnership { new_owner } => {
                match self.transfer_ownership(sender, new_owner) {
                    Ok(()) => Ok(ExecuteResponse::OwnershipTransferred),
                    Err(e) => Err(e),
                }
            },
        }
    }

    /// Answers `msg` at `now`, changing nothing.
    pub fn query(&self, now: u64, msg: &QueryMsg) -> (r: Result<QueryResponse, ContractError>)
        requires
            self.wf(),
        ensures
            spec_answered(self@, now as int, *msg, r),
    {
        match msg {
            QueryMsg::Config {  } => Ok(QueryResponse::Config(self.query_config())),
            QueryMsg::State {  } => Ok(QueryResponse::State(self.query_state())),
            QueryMsg::Allocation { account } => {
                match self.query_allocation(account) {
                    Ok(allocation) => Ok(QueryResponse::Allocation(allocation)),
                    Err(e) => Err(e),
                }
            },
            QueryMsg::SimulateWithdraw { account, timestamp } => {
                match self.simulate_withdraw(account, *timestamp, now) {
                    Ok(response) => Ok(QueryResponse::SimulateWithdraw(response)),
                    Err(e) => Err(e),
                }
            },
        }
    }
}

/// Whether the pool totals have room for what `msg` deposits. Only a
/// funding transfer deposits anything.
pub open spec fn spec_has_room(pre: EngineView, msg: ExecuteMsg) -> bool {
    match msg {
        ExecuteMsg::Receive { amount, .. } => pre.has_room(amount),
        _ => true,
    }
}

/// Whether `r` and `post` are what carrying out `msg` gives: the outcome
/// of the operation that the message stands for, under the response of its
/// kind, and an unchanged engine where it fails.
pub open spec fn spec_executed(
    pre: EngineView,
    now: int,
    sender: Seq<char>,
    msg: ExecuteMsg,
    post: EngineView,
    r: Result<ExecuteResponse, ContractError>,
) -> bool {
    match msg {
        ExecuteMsg::Receive {
            sender: creator,
            amount,
            msg: ReceiveMsg::CreateAllocations { allocations },
        } => {
            let outcome = spec_create_allocations(
                pre,
                creator@,
                sender,
                amount,
                batch_view(allocations@),
            );
            match r {
                Ok(ExecuteResponse::AllocationsCreated) => outcome == Ok::<EngineView, ErrorView>(
                    post,
                ),
                Err(e) => outcome == Err::<EngineView, ErrorView>(e@) && post == pre,
                _ => false,
            }
        },
        ExecuteMsg::Withdraw {  } => {
            let outcome = spec_withdraw(pre, sender, now);
            match r {
                Ok(ExecuteResponse::Withdrawn(transfer)) => outcome == Ok::<
                    (EngineView, TransferView),
                    ErrorView,
                >((post, transfer@)),
                Err(e) => outcome == Err::<(EngineView, TransferView), ErrorView>(e@) && post
                    == pre,
                _ => false,
            }
        },
        ExecuteMsg::Terminate { user_address } => {
            let outcome = spec_terminate(pre, sender, user_address@, now);
            match r {
                Ok(ExecuteResponse::Terminated(termination)) => outcome == Ok::<
                    (EngineView, TerminationView),
                    ErrorView,
                >((post, termination@)),
                Err(e) => outcome == Err::<(EngineView, TerminationView), ErrorView>(e@) && post
                    == pre,
                _ => false,
            }
        },
        ExecuteMsg::TransferOwnership { new_owner } => {
            let outcome = spec_transfer_ownership(pre, sender, new_owner@);
            match r {
                Ok(ExecuteResponse::OwnershipTransferred) => outcome == Ok::<
                    EngineView,
                    ErrorView,
                >(post),
                Err(e) => outcome == Err::<EngineView, ErrorView>(e@) && post == pre,
                _ => false,
            }
        },
    }
}

/// Whether `r` is the answer to `msg`: the answer of the query that the
/// message stands for, under the response of its kind.
pub open spec fn spec_answered(
    pre: EngineView,
    now: int,
    msg: QueryMsg,
    r: Result<QueryResponse, ContractError>,
) -> bool {
    match msg {
        QueryMsg::Config {  } => match r {
            Ok(QueryResponse::Config(config)) => config@ == pre.config(),
            _ => false,
        },
        QueryMsg::State {  } => match r {
            Ok(QueryResponse::State(state)) => state == pre.state(),
            _ => false,
        },
        QueryMsg::Allocation { account } => {
            let outcome = spec_allocation(pre, account@);
            match r {
                Ok(QueryResponse::Allocation(allocation)) => outcome == Ok::<
                    AllocationInfo,
                    ErrorView,
                >(allocation),
                Err(e) => outcome == Err::<AllocationInfo, ErrorView>(e@),
                _ => false,
            }
        },
        QueryMsg::SimulateWithdraw { account, timestamp } => {
            let outcome = spec_simulate_withdraw(pre, account@, timestamp, now);
            match r {
                Ok(QueryResponse::SimulateWithdraw(response)) => outcome == Ok::<
                    SimulateWithdrawResponse,
                    ErrorView,
                >(response),
                Err(e) => outcome == Err::<SimulateWithdrawResponse, ErrorView>(e@),
                _ => false,
            }
        },
    }
}

} // verus!

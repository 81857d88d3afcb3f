//! The messages that the emissions engine takes and the answers it gives.

use crate::emissions::allocation::{AllocationInfo, SimulateWithdrawResponse};
use crate::emissions::schedule::Schedule;
use vstd::prelude::*;

verus! {

/// What the engine is set up with.
#[derive(Clone, Debug, PartialEq, Eq)]
pub struct InstantiateMsg {
    /// Who may create and terminate allocations and hand the ownership on.
    pub owner: String,
    /// The governance address, to which withdrawn tokens are sent.
    pub gov: String,
    /// Who receives what a termination claws back.
    pub refund_recepient: String,
    /// The one token that the engine accepts as funding.
    pub whale_token: String,
    /// The unlock schedule that is kept with the addresses and shown with
    /// them. It takes no part in what an allocation releases: an allocation
    /// without an unlock schedule of its own is held back by vesting alone.
    pub default_unlock_schedule: Schedule,
}

/// The instruction that comes bundled with a funding transfer.
#[derive(Clone, Debug, PartialEq, Eq)]
pub enum ReceiveMsg {
    /// Creates one allocation for each account of the batch.
    CreateAllocations { allocations: Vec<(String, AllocationInfo)> },
}

/// The commands of the engine.
#[derive(Clone, Debug, PartialEq, Eq)]
pub enum ExecuteMsg {
    /// A funding transfer of `amount` tokens from `sender`, with its
    /// instruction. The token is the one that delivers the message.
    Receive { sender: String, amount: u128, msg: ReceiveMsg },
    /// Withdraws what the caller's allocation has released.
    Withdraw {  },
    /// Ends the allocation of `user_address`.
    Terminate { user_address: String },
    /// Hands the ownership to `new_owner`.
    TransferOwnership { new_owner: String },
}

/// The queries of the engine.
#[derive(Clone, Debug, PartialEq, Eq)]
pub enum QueryMsg {
    /// The addresses that the engine works with.
    Config {  },
    /// The totals of the pool.
    State {  },
    /// The allocation of one account.
    Allocation { account: String },
    /// What a withdrawal by `account` would show at `timestamp`, or now
    /// where none is given.
    SimulateWithdraw { account: String, timestamp: Option<u64> },
}

/// The addresses that the engine works with, and the default unlock
/// schedule that it was set up with.
#[derive(Clone, Debug, PartialEq, Eq)]
pub struct ConfigResponse {
    pub owner: String,
    pub gov: String,
    pub refund_recepient: String,
    pub whale_token: String,
    pub default_unlock_schedule: Schedule,
}

/// The totals of the pool.
#[derive(Clone, Copy, Debug, PartialEq, Eq, Structural)]
pub struct StateResponse {
    /// All that was ever deposited to fund allocations.
    pub total_whale_deposited: u128,
    /// The running total of what the created batches hold.
    pub remaining_whale_tokens: u128,
}

/// The allocation of an account, as a query returns it.
pub type AllocationResponse = AllocationInfo;

/// An order to move `amount` tokens to `recipient`.
#[derive(Clone, Debug, PartialEq, Eq)]
pub struct Transfer {
    pub recipient: String,
    pub amount: u128,
}

/// What a termination orders: the payout to the holder, where anything is
/// owed, and the refund to the refund recipient, where anything had not
/// vested. A transfer of nothing is not ordered.
#[derive(Clone, Debug, PartialEq, Eq)]
pub struct Termination {
    pub payout: Option<Transfer>,
    pub refund: Option<Transfer>,
}

/// What a command has done.
#[derive(Clone, Debug, PartialEq, Eq)]
pub enum ExecuteResponse {
    /// The batch was entered.
    AllocationsCreated,
    /// A withdrawal was recorded; the transfer carries it out.
    Withdrawn(Transfer),
    /// An allocation was ended; the transfers settle it.
    Terminated(Termination),
    /// The owner has changed.
    OwnershipTransferred,
}

/// The answer to a query.
#[derive(Clone, Debug, PartialEq, Eq)]
pub enum QueryResponse {
    Config(ConfigResponse),
    State(StateResponse),
    Allocation(AllocationResponse),
    SimulateWithdraw(SimulateWithdrawResponse),
}

/// A [`Transfer`] as a mathematical value.
pub ghost struct TransferView {
    pub recipient: Seq<char>,
    pub amount: u128,
}

/// A [`Termination`] as a mathematical value.
pub ghost struct TerminationView {
    pub payout: Option<TransferView>,
    pub refund: Option<TransferView>,
}

/// A [`ConfigResponse`] as a mathematical value.
pub ghost struct ConfigView {
    pub owner: Seq<char>,
    pub gov: Seq<char>,
    pub refund_recepient: Seq<char>,
    pub whale_token: Seq<char>,
    pub default_unlock_schedule: Schedule,
}

impl View for Transfer {
    type V = TransferView;

    open spec fn view(&self) -> TransferView {
        TransferView { recipient: self.recipient@, amount: self.amount }
    }
}

impl View for Termination {
    type V = TerminationView;

    open spec fn view(&self) -> TerminationView {
        TerminationView {
            payout: match self.payout {
                Some(transfer) => Some(transfer@),
                None => None,
            },
            refund: match self.refund {
                Some(transfer) => Some(transfer@),
                None => None,
            },
        }
    }
}

impl View for ConfigResponse {
    type V = ConfigView;

    open spec fn view(&self) -> ConfigView {
        ConfigView {
            owner: self.owner@,
            gov: self.gov@,
            refund_recepient: self.refund_recepient@,
            whale_token: self.whale_token@,
            default_unlock_schedule: self.default_unlock_schedule,
        }
    }
}

impl View for InstantiateMsg {
    type V = ConfigView;

    open spec fn view(&self) -> ConfigView {
        ConfigView {
            owner: self.owner@,
            gov: self.gov@,
            refund_recepient: self.refund_recepient@,
            whale_token: self.whale_token@,
            default_unlock_schedule: self.default_unlock_schedule,
        }
    }
}

/// A batch of allocations as a mathematical value: each account name as a
/// sequence of characters, with its allocation.
pub open spec fn batch_view(batch: Seq<(String, AllocationInfo)>) -> Seq<
    (Seq<char>, AllocationInfo),
> {
    Seq::new(batch.len(), |i: int| (batch[i].0@, batch[i].1))
}

} // verus!

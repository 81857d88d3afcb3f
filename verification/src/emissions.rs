//! Token emissions: vesting schedules, allocations, the allocation ledger and
//! the engine that creates, pays out and terminates grants.

pub mod allocation;
pub mod engine;
pub mod error;
pub mod ledger;
pub mod msg;
pub mod schedule;
pub mod theorems;

pub use allocation::{AllocationInfo, Settlement, SimulateWithdrawResponse};
pub use engine::{EmissionEngine, EngineView};
pub use error::{ContractError, ErrorView, InvalidReason};
pub use ledger::AllocationLedger;
pub use msg::{
    AllocationResponse, ConfigResponse, ExecuteMsg, ExecuteResponse, InstantiateMsg, QueryMsg,
    QueryResponse, ReceiveMsg, StateResponse, Termination, Transfer,
};
pub use schedule::{Fraction, Schedule};

//! Verified core of the White Whale protocol packages.
//!
//! The centre of the crate is [`emissions`]: a ledger of token grants, each
//! released over time by a linear vesting schedule and an optional unlock
//! schedule, with withdrawal, termination and simulation. Every executable
//! function carries a contract that Verus proves; the arithmetic is exact and
//! free of overflow.
//!
//! The remaining modules hold the message vocabulary that the protocol's
//! contracts share, and a few small helpers.

pub mod emissions;
pub mod anchor;
pub mod asset;
pub mod deposit_info;
pub mod keys;
pub mod luna_vault;
pub mod profit_check;
pub mod treasury;
pub mod ust_vault;

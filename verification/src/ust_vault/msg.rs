//! The messages of the stablecoin vault that need nothing but plain values.

use vstd::prelude::*;

verus! {

/// What the vault tells itself once a step is done.
#[derive(Clone, Copy, Debug, PartialEq, Eq, Structural)]
pub enum CallbackMsg {
    AfterSuccessfulLoanCallback {  },
}

/// The addresses and switches of the vault.
#[derive(Clone, Debug, PartialEq, Eq)]
pub struct StateResponse {
    pub anchor_money_market_address: String,
    pub aust_address: String,
    pub profit_check_address: String,
    pub allow_non_whitelisted: bool,
}

} // verus!

//! The messages of the profit check.

use vstd::prelude::*;

verus! {

/// What the profit check is set up with.
#[derive(Clone, Debug, PartialEq, Eq)]
pub struct InitMsg {
    pub vault_address: String,
    pub denom: String,
}

/// The commands of the profit check.
#[derive(Clone, Debug, PartialEq, Eq)]
pub enum HandleMsg {
    /// Records the balance before a trade.
    BeforeTrade {  },
    /// Compares the balance after a trade with the one recorded before.
    AfterTrade {  },
    /// Names the vault that is watched.
    SetVault { vault_address: String },
}

/// The queries of the profit check.
#[derive(Clone, Copy, Debug, PartialEq, Eq, Structural)]
pub enum QueryMsg {
    LastBalance {  },
    LastProfit {  },
    Vault {  },
}

} // verus!

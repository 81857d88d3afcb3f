//! The messages that the Anchor money market and its bLuna hub take.

use vstd::prelude::*;

verus! {

/// What a caller asks of Anchor.
#[derive(Clone, Copy, Debug, PartialEq, Eq, Structural)]
pub enum AnchorMsg {
    /// Deposits stablecoins into the money market.
    DepositStable {  },
    /// Redeems deposited stablecoins.
    RedeemStable {  },
    /// Starts unbonding bLuna.
    Unbond {  },
    /// Collects what has finished unbonding.
    WithdrawUnbonded {  },
}

} // verus!

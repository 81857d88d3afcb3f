//! The messages of the unbond handler.

use vstd::prelude::*;

verus! {

/// The instruction that comes with bLuna sent to the handler.
#[derive(Clone, Copy, Debug, PartialEq, Eq, Structural)]
pub enum Cw20HookMsg {
    /// Unbonds the bLuna that was sent.
    Unbond {  },
}

/// What the handler tells itself once a step is done.
#[derive(Clone, Debug, PartialEq, Eq)]
pub enum CallbackMsg {
    /// Called after Luna was withdrawn from Anchor, so that it is sent on
    /// to the owner.
    AfterWithdraw { triggered_by_addr: String },
}

/// The queries of the handler.
#[derive(Clone, Copy, Debug, PartialEq, Eq, Structural)]
pub enum QueryMsg {
    /// Queries the state.
    State {  },
    WithdrawableUnbonded {  },
    UnbondRequests {  },
}

/// Nothing is needed to migrate the handler.
#[derive(Clone, Copy, Debug, PartialEq, Eq, Structural)]
pub struct MigrateMsg {}

} // verus!

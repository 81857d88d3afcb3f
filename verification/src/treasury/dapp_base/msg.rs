//! The messages that every treasury dapp understands.

use vstd::prelude::*;

verus! {

/// What a dapp is set up with.
#[derive(Clone, Debug, PartialEq, Eq)]
pub struct BaseInstantiateMsg {
    pub treasury_address: String,
    pub trader: String,
    pub memory_addr: String,
}

/// The commands that every dapp takes.
#[derive(Clone, Debug, PartialEq, Eq)]
pub enum BaseExecuteMsg {
    /// Updates the base config.
    UpdateConfig {
        treasury_address: Option<String>,
        trader: Option<String>,
        memory: Option<String>,
    },
    /// Sets a new admin.
    SetAdmin { admin: String },
}

/// The queries that every dapp answers.
#[derive(Clone, Copy, Debug, PartialEq, Eq, Structural)]
pub enum BaseQueryMsg {
    /// Returns the state of the dapp.
    Config {  },
}

/// The state of a dapp.
#[derive(Clone, Debug, PartialEq, Eq)]
pub struct BaseStateResponse {
    pub treasury_address: String,
    pub trader: String,
    pub memory_address: String,
}

} // verus!

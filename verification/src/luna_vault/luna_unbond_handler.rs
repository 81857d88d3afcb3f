//! The handler that unbonds bLuna for one user of the Luna vault.

pub mod msg;
pub mod serde_option;

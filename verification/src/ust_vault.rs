//! The stablecoin vault.

pub mod msg;

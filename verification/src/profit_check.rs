//! The profit check that guards a vault's trades.

pub mod msg;

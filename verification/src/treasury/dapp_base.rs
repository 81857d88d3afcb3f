//! What every treasury dapp has in common.

pub mod msg;

//! The treasury and the dapps that act for it.

pub mod dapp_base;

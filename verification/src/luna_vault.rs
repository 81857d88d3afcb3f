//! The Luna vault and its helpers.

pub mod luna_unbond_handler;

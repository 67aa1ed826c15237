//! What holds of the transaction service as a whole.

pub mod blocks;
pub mod chain;
pub mod checks;
pub mod requests;
pub mod service;
pub mod views;

//! Transaction admission and message relay for a blockchain node.

pub mod actions;
pub mod batch;
pub mod bytes;
pub mod clock;
pub mod crypto;
pub mod handler;
pub mod history;
pub mod laws;
pub mod messages;
pub mod network;
pub mod quota;
pub mod routing;
pub mod sig_cache;
pub mod signature;
pub mod state;
pub mod table;

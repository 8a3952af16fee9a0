//! Countertrading against purchases of a tracked token seen among pending
//! transactions: calldata classification, sell sizing and encoding, a running
//! sell total, and the decisions of the monitoring loop.

pub mod word;
pub mod address;
pub mod abi;
pub mod config;
pub mod decoder;
pub mod trade;
pub mod volume;
pub mod controller;

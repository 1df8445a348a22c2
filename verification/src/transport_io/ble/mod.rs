//! A byte stream over BLE.
pub mod ad_table;
pub mod error;
pub mod orchestrator;
pub mod server;
pub mod stream;
pub mod types;

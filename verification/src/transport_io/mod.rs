//! What carries the transport.
pub mod ble;

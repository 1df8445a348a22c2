//! An OBD-II bridge: ISO-TP over CAN on one side, a BLE byte stream on the other.
//!
//! The crate holds the decisions of the bridge as verified code. It performs no input or
//! output itself: each exchange is a state machine that says which frame to transmit, how long
//! to listen or to pause, and takes back what happened.
pub mod application;
pub mod bounded;
pub mod can;
pub mod transport;
pub mod transport_io;

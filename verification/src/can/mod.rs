//! CAN identifiers, the ISO-TP transport and the OBD-II services on top of it.
pub mod config;
pub mod discovery;
pub mod dtc;
pub mod id;
pub mod iso_tp;
pub mod obd2;

//! ISO 15765-2 (ISO-TP): segmentation of messages over eight-byte CAN frames.
pub mod collection_laws;
pub mod exchange_laws;
pub mod frame;
pub mod functional;
pub mod handler;
pub mod laws;
pub mod mapper;
pub mod physical;
pub mod receive;
pub mod send;
pub mod transfer;
pub mod transfer_laws;
pub mod types;
pub mod wire_laws;
